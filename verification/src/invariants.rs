//! What holds of every graph that the builder makes: how edges and node
//! kinds go together, which nodes have edges, and when every node can be
//! reached from the entry.

use crate::cfg::{
    block_index, body_index, branch_index, call_index, function_label, lower, lower_upto, node_model,
    build_model, find_block, find_body, find_branch, node_text, synthetic_node, BuildError,
    BuildModel,
};
use crate::summary::FuncSummary;
use crate::graph::{CfgModel, EdgeKind, EdgeModel, NodeModel, StmtKind};
use crate::labels::{kind_of, label_of, lookup, Kind};
use crate::syntax::SyntaxNode;
use vstd::prelude::*;

verus! {

/// Whether a statement of this kind ends its path: a return, a break or a
/// continue.
pub open spec fn is_terminator(k: StmtKind) -> bool {
    k == StmtKind::Return || k == StmtKind::Break || k == StmtKind::Continue
}

/// Some edge leaves node `i`.
pub open spec fn has_out(g: CfgModel, i: int) -> bool {
    exists|j: int| 0 <= j < g.edges.len() && (#[trigger] g.edges[j]).src == i
}

/// Some edge enters node `i`.
pub open spec fn has_in(g: CfgModel, i: int) -> bool {
    exists|j: int| 0 <= j < g.edges.len() && (#[trigger] g.edges[j]).dst == i
}

/// Some edge enters node `i` from a node that was made before it.
pub open spec fn has_earlier_in(g: CfgModel, i: int) -> bool {
    exists|j: int|
        0 <= j < g.edges.len() && (#[trigger] g.edges[j]).dst == i && 0 <= g.edges[j].src < i
}

/// Node `i` needs no further edge: it is the exit, it ends its path, or an
/// edge leaves it.
pub open spec fn settled(g: CfgModel, i: int) -> bool {
    i == 1 || is_terminator(g.nodes[i].kind) || has_out(g, i)
}

/// A node is a call exactly when it names a callee, and a label that it
/// carries is the label of some text under the rules of the language.
pub open spec fn node_fits(n: NodeModel, lang: Seq<char>) -> bool {
    &&& (n.kind == StmtKind::Call) == (n.callee is Some)
    &&& n.label is Some ==> exists|text: Seq<char>| #[trigger] label_of(lang, text) == n.label
}

/// An edge goes with the kinds of its ends: only a conditional has a true
/// or a false edge, only a loop header is the target of a back edge, and
/// nothing leaves the exit.
pub open spec fn edge_fits(g: CfgModel, e: EdgeModel) -> bool {
    &&& 0 <= e.src < g.nodes.len()
    &&& 0 <= e.dst < g.nodes.len()
    &&& e.src != 1
    &&& (e.kind == EdgeKind::True || e.kind == EdgeKind::False) ==> g.nodes[e.src].kind
        == StmtKind::If
    &&& e.kind == EdgeKind::Back ==> g.nodes[e.dst].kind == StmtKind::Loop
}

/// Every node and every edge of the graph fits.
pub open spec fn sound(g: CfgModel, lang: Seq<char>) -> bool {
    &&& forall|i: int| 0 <= i < g.nodes.len() ==> node_fits(#[trigger] g.nodes[i], lang)
    &&& forall|j: int| 0 <= j < g.edges.len() ==> edge_fits(g, #[trigger] g.edges[j])
}

/// Every node but the entry and the exit is entered from a node that was
/// made before it.
pub open spec fn linked(g: CfgModel) -> bool {
    forall|i: int| 2 <= i < g.nodes.len() ==> #[trigger] has_earlier_in(g, i)
}

/// Some edge goes from `a` to `b`.
pub open spec fn joined(g: CfgModel, a: int, b: int) -> bool {
    exists|j: int| 0 <= j < g.edges.len() && (#[trigger] g.edges[j]).src == a && g.edges[j].dst == b
}

/// A walk along edges of the graph.
pub open spec fn is_walk(g: CfgModel, walk: Seq<int>) -> bool {
    &&& walk.len() > 0
    &&& forall|k: int| 0 <= k < walk.len() - 1 ==> #[trigger] joined(g, walk[k], walk[k + 1])
}

/// Node `b` can be reached from node `a` along edges of the graph.
pub open spec fn reaches(g: CfgModel, a: int, b: int) -> bool {
    exists|walk: Seq<int>| is_walk(g, walk) && walk[0] == a && #[trigger] walk.last() == b
}

proof fn lemma_walk_extend(g: CfgModel, walk: Seq<int>, j: int)
    requires
        is_walk(g, walk),
        0 <= j < g.edges.len(),
        g.edges[j].src == walk.last(),
    ensures
        is_walk(g, walk.push(g.edges[j].dst)),
{
}

proof fn lemma_linked_reaches(g: CfgModel, i: int)
    requires
        linked(g),
        forall|j: int| 0 <= j < g.edges.len() ==> (#[trigger] g.edges[j]).src != 1,
        0 <= i < g.nodes.len(),
        i != 1,
    ensures
        reaches(g, 0, i),
    decreases i,
{
    if i == 0 {
        let walk = seq![0int];
        assert(walk.last() == 0);
    } else {
        assert(has_earlier_in(g, i));
        let j = choose|j: int|
            0 <= j < g.edges.len() && (#[trigger] g.edges[j]).dst == i && 0 <= g.edges[j].src < i;
        let a = g.edges[j].src;
        lemma_linked_reaches(g, a);
        let walk = choose|walk: Seq<int>|
            is_walk(g, walk) && walk[0] == 0 && #[trigger] walk.last() == a;
        lemma_walk_extend(g, walk, j);
        let w = walk.push(i);
        assert(w.last() == i);
    }
}

/// In a linked graph whose exit is entered and never left, every node can
/// be reached from the entry and every node but the entry is entered.
pub proof fn lemma_linked_graph(g: CfgModel)
    requires
        g.nodes.len() >= 2,
        linked(g),
        has_in(g, 1),
        forall|j: int| 0 <= j < g.edges.len() ==> (#[trigger] g.edges[j]).src != 1,
        forall|j: int| 0 <= j < g.edges.len() ==> 0 <= (#[trigger] g.edges[j]).src < g.nodes.len(),
    ensures
        forall|i: int| 0 <= i < g.nodes.len() ==> reaches(g, 0, i),
        forall|i: int| 1 <= i < g.nodes.len() ==> has_in(g, i),
{
    assert forall|i: int| 0 <= i < g.nodes.len() implies reaches(g, 0, i) by {
        if i != 1 {
            lemma_linked_reaches(g, i);
        } else {
            let j = choose|j: int| 0 <= j < g.edges.len() && (#[trigger] g.edges[j]).dst == 1;
            let a = g.edges[j].src;
            lemma_linked_reaches(g, a);
            let walk = choose|walk: Seq<int>|
                is_walk(g, walk) && walk[0] == 0 && #[trigger] walk.last() == a;
            lemma_walk_extend(g, walk, j);
            let w = walk.push(1);
            assert(w.last() == 1);
        }
    }
    assert forall|i: int| 1 <= i < g.nodes.len() implies has_in(g, i) by {
        if i >= 2 {
            assert(has_earlier_in(g, i));
        }
    }
}


/// How control passes through a lowered subtree: whether every node that
/// the lowering adds is entered, and whether control falls out of it.
#[derive(Debug, Clone, Copy, PartialEq, Eq, Structural)]
pub struct Flow {
    pub ok: bool,
    pub out: bool,
}

/// The flow through the subtree `ast`, entered or not.
pub open spec fn flow(ast: SyntaxNode, lang: Seq<char>, entered: bool) -> Flow
    decreases ast, ast.children@.len() + 1,
{
    let k = kind_of(lang, ast.kind@);
    if k == Kind::Trivia {
        Flow { ok: true, out: entered }
    } else if k == Kind::SourceFile || k == Kind::Block {
        flow_upto(ast, lang, ast.children@.len(), entered)
    } else if k == Kind::Return || k == Kind::Break || k == Kind::Continue {
        Flow { ok: entered, out: false }
    } else if k == Kind::If {
        let first = block_index(ast.children@, lang, 0);
        let second = block_index(ast.children@, lang, first + 1);
        if 0 <= first < ast.children@.len() {
            let t = flow(ast.children@[first], lang, true);
            if 0 <= second < ast.children@.len() {
                let e = flow(ast.children@[second], lang, true);
                Flow { ok: entered && t.ok && e.ok, out: t.out || e.out }
            } else {
                Flow { ok: entered && t.ok, out: t.out }
            }
        } else {
            Flow { ok: entered, out: true }
        }
    } else if k == Kind::InfiniteLoop || k == Kind::While || k == Kind::For {
        let b = body_index(ast, lang, k != Kind::InfiniteLoop);
        if 0 <= b < ast.children@.len() {
            Flow { ok: entered && flow(ast.children@[b], lang, true).ok, out: true }
        } else {
            Flow { ok: false, out: false }
        }
    } else if k == Kind::Function {
        let b = body_index(ast, lang, false);
        if 0 <= b < ast.children@.len() {
            let f = flow(ast.children@[b], lang, true);
            Flow { ok: entered && f.ok && f.out, out: true }
        } else {
            Flow { ok: false, out: false }
        }
    } else if k == Kind::CallWrapper {
        let inner = branch_index(ast.children@, lang, 0);
        if 0 <= inner < ast.children@.len() {
            flow(ast.children@[inner], lang, entered)
        } else {
            Flow { ok: entered, out: true }
        }
    } else {
        Flow { ok: entered, out: true }
    }
}

/// The flow through the first `k` children of `ast`, one after the other.
pub open spec fn flow_upto(ast: SyntaxNode, lang: Seq<char>, k: nat, entered: bool) -> Flow
    decreases ast, k,
{
    if k == 0 || k > ast.children@.len() {
        Flow { ok: true, out: entered }
    } else {
        let before = flow_upto(ast, lang, (k - 1) as nat, entered);
        let last = flow(ast.children@[k - 1], lang, before.out);
        Flow { ok: before.ok && last.ok, out: last.out }
    }
}

/// Node `i` is in the frontier.
pub open spec fn in_front(f: Seq<usize>, i: int) -> bool {
    exists|x: int| 0 <= x < f.len() && (#[trigger] f[x]) as int == i
}

/// Every index of the frontier is a node, and none is the exit.
pub open spec fn fronts(st: BuildModel, f: Seq<usize>) -> bool {
    forall|i: int| 0 <= i < f.len() ==> (#[trigger] f[i]) < st.graph.nodes.len() && f[i] != 1
}

/// What a lowering from `old` behind `preds` to `later` with frontier `r`
/// keeps and brings about, unless it fails.
#[verifier::opaque]
pub open spec fn extends(
    old: BuildModel,
    preds: Seq<usize>,
    later: BuildModel,
    r: Seq<usize>,
    fl: Flow,
    lang: Seq<char>,
) -> bool {
    later.failed is None ==> {
        &&& old.failed is None
        &&& old.graph.nodes.len() <= later.graph.nodes.len()
        &&& old.graph.edges.len() <= later.graph.edges.len()
        &&& forall|i: int|
            0 <= i < old.graph.nodes.len() ==> later.graph.nodes[i]
                == #[trigger] old.graph.nodes[i]
        &&& forall|j: int|
            0 <= j < old.graph.edges.len() ==> later.graph.edges[j]
                == #[trigger] old.graph.edges[j]
        &&& fronts(later, r)
        &&& (sound(old.graph, lang) ==> sound(later.graph, lang))
        &&& (r.len() > 0) == fl.out
        &&& (linked(old.graph) && fl.ok ==> linked(later.graph))
        &&& forall|i: int|
            0 <= i < old.graph.nodes.len() && #[trigger] settled(old.graph, i) ==> settled(
                later.graph,
                i,
            )
        &&& forall|i: int|
            0 <= i < later.graph.nodes.len() && !#[trigger] settled(later.graph, i) ==> in_front(r, i) || (i < old.graph.nodes.len() && !settled(old.graph, i) && !in_front(preds, i))
        &&& (preds.len() > 0 ==> (later.graph == old.graph && r == preds) || (
        later.graph.edges.len() > old.graph.edges.len() && later.graph.edges[old.graph.edges.len() as int].src
            == preds[0]))
    }
}

/// Passing by changes nothing.
proof fn lemma_ext_pass(st: BuildModel, p: Seq<usize>, lang: Seq<char>)
    requires
        fronts(st, p),
    ensures
        extends(st, p, st, p, Flow { ok: true, out: p.len() > 0 }, lang),
{
    reveal(extends);
}

/// What `connect_upto` gives when it does not fail: the nodes as they were
/// and one more edge for each of the first `k` predecessors.
proof fn lemma_connect_upto(st: BuildModel, froms: Seq<usize>, to: usize, kind: EdgeKind, k: int)
    requires
        0 <= k <= froms.len(),
        st.connect_upto(froms, to, kind, k).failed is None,
    ensures
        st.failed is None,
        st.connect_upto(froms, to, kind, k).graph.nodes == st.graph.nodes,
        st.connect_upto(froms, to, kind, k).summaries == st.summaries,
        st.connect_upto(froms, to, kind, k).graph.edges == st.graph.edges + Seq::new(
            k as nat,
            |x: int| EdgeModel { src: froms[x] as int, dst: to as int, kind },
        ),
    decreases k,
{
    if k > 0 {
        lemma_connect_upto(st, froms, to, kind, k - 1);
    }
}


/// An edge of a graph is an edge of every graph that has the same edges up
/// to there.
proof fn lemma_out_kept(a: CfgModel, b: CfgModel, i: int)
    requires
        a.edges.len() <= b.edges.len(),
        forall|j: int| 0 <= j < a.edges.len() ==> b.edges[j].src == (#[trigger] a.edges[j]).src,
        has_out(a, i),
    ensures
        has_out(b, i),
{
}

proof fn lemma_earlier_in_kept(a: CfgModel, b: CfgModel, i: int)
    requires
        a.edges.len() <= b.edges.len(),
        forall|j: int|
            0 <= j < a.edges.len() ==> b.edges[j].src == (#[trigger] a.edges[j]).src
                && b.edges[j].dst == a.edges[j].dst,
        has_earlier_in(a, i),
    ensures
        has_earlier_in(b, i),
{
}

/// Adding a statement behind a frontier.
proof fn lemma_ext_add(st: BuildModel, info: NodeModel, p: Seq<usize>, lang: Seq<char>, stays: bool)
    requires
        fronts(st, p),
        node_fits(info, lang),
        st.graph.nodes.len() >= 2,
        stays || is_terminator(info.kind),
    ensures
        extends(
            st,
            p,
            st.push(info).0.connect_all(p, st.push(info).1, EdgeKind::Sequential),
            if stays {
                seq![st.push(info).1]
            } else {
                Seq::empty()
            },
            Flow { ok: p.len() > 0, out: stays },
            lang,
        ),
{
    reveal(extends);
    let (s1, n) = st.push(info);
    let s2 = s1.connect_all(p, n, EdgeKind::Sequential);
    let r: Seq<usize> = if stays {
        seq![n]
    } else {
        Seq::empty()
    };
    if s2.failed is None {
        lemma_connect_upto(s1, p, n, EdgeKind::Sequential, p.len() as int);
        let added = Seq::new(
            p.len(),
            |x: int| EdgeModel { src: p[x] as int, dst: n as int, kind: EdgeKind::Sequential },
        );
        let g0 = st.graph;
        let g = s2.graph;
        if linked(g0) && p.len() > 0 {
            assert forall|i: int| 2 <= i < g.nodes.len() implies #[trigger] has_earlier_in(g, i) by {
                if i < g0.nodes.len() {
                    lemma_earlier_in_kept(g0, g, i);
                } else {
                    assert(g.edges[g0.edges.len() as int] == added[0]);
                }
            }
        }
        assert forall|i: int| 0 <= i < g.nodes.len() && !#[trigger] settled(g, i) implies in_front(r, i) || (i < g0.nodes.len() && !settled(g0, i) && !in_front(p, i)) by {
            if i == n {
                assert(r[0] as int == n);
            } else {
                if settled(g0, i) {
                    if has_out(g0, i) {
                        lemma_out_kept(g0, g, i);
                    }
                }
                if in_front(p, i) {
                    let x = choose|x: int| 0 <= x < p.len() && (#[trigger] p[x]) as int == i;
                    assert(g.edges[g0.edges.len() + x] == added[x]);
                }
            }
        }
    }
}

/// One lowering after another.
proof fn lemma_ext_compose(
    a: BuildModel,
    p: Seq<usize>,
    b: BuildModel,
    q: Seq<usize>,
    f1: Flow,
    c: BuildModel,
    r: Seq<usize>,
    f2: Flow,
    lang: Seq<char>,
)
    requires
        extends(a, p, b, q, f1, lang),
        extends(b, q, c, r, f2, lang),
    ensures
        extends(a, p, c, r, Flow { ok: f1.ok && f2.ok, out: f2.out }, lang),
{
    reveal(extends);
}


/// A lowering whose last state is followed by changes to the edges that it
/// added itself: every edge keeps its ends, further edges may be added, and
/// every edge that is changed or added fits.
proof fn lemma_ext_edges(
    a: BuildModel,
    p: Seq<usize>,
    b: BuildModel,
    r: Seq<usize>,
    f: Flow,
    c: BuildModel,
    lang: Seq<char>,
)
    requires
        extends(a, p, b, r, f, lang),
        c.failed is None ==> b.failed is None,
        c.graph.nodes == b.graph.nodes,
        b.graph.edges.len() <= c.graph.edges.len(),
        forall|j: int|
            0 <= j < a.graph.edges.len() ==> c.graph.edges[j] == #[trigger] b.graph.edges[j],
        forall|j: int|
            0 <= j < b.graph.edges.len() ==> c.graph.edges[j].src == (#[trigger] b.graph.edges[j]).src
                && c.graph.edges[j].dst == b.graph.edges[j].dst,
        forall|j: int|
            0 <= j < c.graph.edges.len() ==> (j < b.graph.edges.len() && #[trigger] c.graph.edges[j]
                == b.graph.edges[j]) || (sound(b.graph, lang) ==> edge_fits(c.graph, c.graph.edges[j])),
        p.len() > 0 && b.graph == a.graph && c.graph != b.graph ==> c.graph.edges[a.graph.edges.len() as int].src
            == p[0],
        p.len() > 0 && b.graph == a.graph && c.graph != b.graph ==> c.graph.edges.len()
            > a.graph.edges.len(),
    ensures
        extends(a, p, c, r, f, lang),
{
    reveal(extends);
    if c.failed is None {
        let ga = a.graph;
        let gb = b.graph;
        let gc = c.graph;
        if linked(ga) && f.ok {
            assert forall|i: int| 2 <= i < gc.nodes.len() implies #[trigger] has_earlier_in(gc, i) by {
                lemma_earlier_in_kept(gb, gc, i);
            }
        }
        assert forall|i: int| 0 <= i < gb.nodes.len() && settled(gb, i) implies settled(gc, i) by {
            if has_out(gb, i) {
                lemma_out_kept(gb, gc, i);
            }
        }
    }
}

/// A lowering whose frontier is exchanged for another that holds every node
/// of the first that is not settled.
proof fn lemma_ext_front(
    a: BuildModel,
    p: Seq<usize>,
    b: BuildModel,
    r: Seq<usize>,
    f: Flow,
    r2: Seq<usize>,
    lang: Seq<char>,
)
    requires
        extends(a, p, b, r, f, lang),
        b.failed is None ==> fronts(b, r2),
        b.failed is None ==> forall|x: int|
            0 <= x < r.len() ==> in_front(r2, (#[trigger] r[x]) as int) || settled(
                b.graph,
                r[x] as int,
            ),
        b.failed is None && p.len() > 0 && b.graph == a.graph ==> r2 == p,
    ensures
        extends(a, p, b, r2, Flow { ok: f.ok, out: r2.len() > 0 }, lang),
{
    reveal(extends);
}


/// What can be read off a lowering that did not fail.
proof fn lemma_ext_facts(
    a: BuildModel,
    p: Seq<usize>,
    b: BuildModel,
    r: Seq<usize>,
    f: Flow,
    lang: Seq<char>,
)
    requires
        extends(a, p, b, r, f, lang),
        b.failed is None,
    ensures
        a.failed is None,
        fronts(b, r),
        a.graph.nodes.len() <= b.graph.nodes.len(),
        a.graph.edges.len() <= b.graph.edges.len(),
        (r.len() > 0) == f.out,
        forall|i: int|
            0 <= i < a.graph.nodes.len() ==> b.graph.nodes[i] == #[trigger] a.graph.nodes[i],
        forall|j: int|
            0 <= j < a.graph.edges.len() ==> b.graph.edges[j] == #[trigger] a.graph.edges[j],
        sound(a.graph, lang) ==> sound(b.graph, lang),
        p.len() > 0 ==> (b.graph == a.graph && r == p) || (b.graph.edges.len() > a.graph.edges.len()
            && b.graph.edges[a.graph.edges.len() as int].src == p[0]),
{
    reveal(extends);
}

/// A lowering that failed keeps nothing.
proof fn lemma_ext_failed(
    a: BuildModel,
    p: Seq<usize>,
    b: BuildModel,
    r: Seq<usize>,
    f: Flow,
    lang: Seq<char>,
)
    requires
        b.failed is Some,
    ensures
        extends(a, p, b, r, f, lang),
{
    reveal(extends);
}

proof fn lemma_connect_all_failed(st: BuildModel, froms: Seq<usize>, to: usize, kind: EdgeKind)
    requires
        st.failed is Some,
    ensures
        st.connect_all(froms, to, kind).failed is Some,
{
    if st.connect_all(froms, to, kind).failed is None {
        lemma_connect_upto(st, froms, to, kind, froms.len() as int);
    }
}

proof fn lemma_node_model_fits(kind: StmtKind, ast: SyntaxNode, lang: Seq<char>, code: Seq<u8>)
    ensures
        node_fits(node_model(kind, ast, lang, code), lang),
        node_model(kind, ast, lang, code).kind == kind,
{
    let n = node_model(kind, ast, lang, code);
}

/// The two branches of a conditional, each lowered behind the condition.
proof fn lemma_ext_fork(
    st: BuildModel,
    p: Seq<usize>,
    s2: BuildModel,
    cond: usize,
    f0: Flow,
    s4: BuildModel,
    te: Seq<usize>,
    ft: Flow,
    s6: BuildModel,
    ee: Seq<usize>,
    fe: Flow,
    lang: Seq<char>,
)
    requires
        extends(st, p, s2, seq![cond], f0, lang),
        extends(s2, seq![cond], s4, te, ft, lang),
        extends(s4, seq![cond], s6, ee, fe, lang),
        s2.failed is None ==> s2.graph.nodes.len() > st.graph.nodes.len(),
    ensures
        extends(
            st,
            p,
            s6,
            te + ee,
            Flow { ok: f0.ok && ft.ok && fe.ok, out: ft.out || fe.out },
            lang,
        ),
{
    reveal(extends);
    if s6.failed is None {
        let g0 = st.graph;
        let g6 = s6.graph;
        let r = te + ee;
        assert forall|i: int| 0 <= i < g6.nodes.len() && !#[trigger] settled(g6, i) implies in_front(
            r,
            i,
        ) || (i < g0.nodes.len() && !settled(g0, i) && !in_front(p, i)) by {
            if in_front(ee, i) {
                let x = choose|x: int| 0 <= x < ee.len() && (#[trigger] ee[x]) as int == i;
                assert(r[te.len() + x] == ee[x]);
            } else {
                if in_front(te, i) {
                    let x = choose|x: int| 0 <= x < te.len() && (#[trigger] te[x]) as int == i;
                    assert(r[x] == te[x]);
                }
            }
        }
    }
}


/// Nothing is lowered once the build has failed.
proof fn lemma_lower_failed(ast: SyntaxNode, preds: Seq<usize>, st: BuildModel, lang: Seq<char>, code: Seq<u8>)
    requires
        st.failed is Some,
    ensures
        lower(ast, preds, st, lang, code) == (st, Seq::<usize>::empty()),
{
}

/// The shape of the state after a statement was added.
proof fn lemma_add_shape(st: BuildModel, info: NodeModel, p: Seq<usize>)
    requires
        st.push(info).0.connect_all(p, st.push(info).1, EdgeKind::Sequential).failed is None,
    ensures
        st.failed is None,
        st.push(info).1 == st.graph.nodes.len(),
        st.push(info).0.connect_all(p, st.push(info).1, EdgeKind::Sequential).graph.nodes
            == st.graph.nodes.push(info),
        st.push(info).0.connect_all(p, st.push(info).1, EdgeKind::Sequential).graph.edges.len()
            == st.graph.edges.len() + p.len(),
        st.push(info).0.connect_all(p, st.push(info).1, EdgeKind::Sequential).summaries
            == st.summaries,
{
    let (s1, n) = st.push(info);
    lemma_connect_upto(s1, p, n, EdgeKind::Sequential, p.len() as int);
}

/// Lowering a statement that becomes one node.
proof fn lemma_lower_node(
    kind: StmtKind,
    ast: SyntaxNode,
    preds: Seq<usize>,
    st: BuildModel,
    lang: Seq<char>,
    code: Seq<u8>,
    stays: bool,
)
    requires
        fronts(st, preds),
        st.graph.nodes.len() >= 2,
        stays || is_terminator(kind),
    ensures
        extends(
            st,
            preds,
            st.push(node_model(kind, ast, lang, code)).0.connect_all(
                preds,
                st.push(node_model(kind, ast, lang, code)).1,
                EdgeKind::Sequential,
            ),
            if stays {
                seq![st.push(node_model(kind, ast, lang, code)).1]
            } else {
                Seq::empty()
            },
            Flow { ok: preds.len() > 0, out: stays },
            lang,
        ),
{
    lemma_node_model_fits(kind, ast, lang, code);
    lemma_ext_add(st, node_model(kind, ast, lang, code), preds, lang, stays);
}

/// Lowering a conditional keeps what holds of the graph.
proof fn lemma_lower_if(ast: SyntaxNode, preds: Seq<usize>, st: BuildModel, lang: Seq<char>, code: Seq<u8>)
    requires
        fronts(st, preds),
        st.graph.nodes.len() >= 2,
        st.failed is None,
        kind_of(lang, ast.kind@) == Kind::If,
    ensures
        extends(
            st,
            preds,
            lower(ast, preds, st, lang, code).0,
            lower(ast, preds, st, lang, code).1,
            flow(ast, lang, preds.len() > 0),
            lang,
        ),
    decreases ast, 0nat,
{
    let info = node_model(StmtKind::If, ast, lang, code);
    let (s1, cond) = st.push(info);
    let s2 = s1.connect_all(preds, cond, EdgeKind::Sequential);
    let f0 = Flow { ok: preds.len() > 0, out: true };
    let from = seq![cond];
    lemma_lower_node(StmtKind::If, ast, preds, st, lang, code, true);
    lemma_node_model_fits(StmtKind::If, ast, lang, code);
    let (s, r) = lower(ast, preds, st, lang, code);
    let fl = flow(ast, lang, preds.len() > 0);
    let first = block_index(ast.children@, lang, 0);
    let second = block_index(ast.children@, lang, first + 1);
    if s2.failed is Some {
        if 0 <= first < ast.children@.len() {
            lemma_lower_failed(ast.children@[first], from, s2, lang, code);
            if 0 <= second < ast.children@.len() {
                lemma_lower_failed(ast.children@[second], from, s2, lang, code);
            }
        }
        lemma_ext_failed(st, preds, s, r, fl, lang);
    } else {
        lemma_add_shape(st, info, preds);
        lemma_ext_facts(st, preds, s2, from, f0, lang);
        assert(s2.graph.nodes[cond as int] == info);
        if 0 <= first < ast.children@.len() {
            let (s3, te) = lower(ast.children@[first], from, s2, lang, code);
            let ft = flow(ast.children@[first], lang, true);
            lemma_lower(ast.children@[first], from, s2, lang, code);
            let n0 = s2.graph.edges.len() as int;
            let s4 = s3.relabel(n0, EdgeKind::True);
            if s3.failed is Some {
                if 0 <= second < ast.children@.len() {
                    lemma_lower_failed(ast.children@[second], from, s3, lang, code);
                }
                lemma_ext_failed(st, preds, s, r, fl, lang);
            } else {
                lemma_ext_facts(s2, from, s3, te, ft, lang);
                lemma_ext_edges(s2, from, s3, te, ft, s4, lang);
                lemma_ext_facts(s2, from, s4, te, ft, lang);
                if 0 <= second < ast.children@.len() {
                    let (s5, ee) = lower(ast.children@[second], from, s4, lang, code);
                    let fe = flow(ast.children@[second], lang, true);
                    lemma_lower(ast.children@[second], from, s4, lang, code);
                    let n1 = s4.graph.edges.len() as int;
                    let s6 = s5.relabel(n1, EdgeKind::False);
                    if s5.failed is Some {
                        lemma_ext_failed(st, preds, s, r, fl, lang);
                    } else {
                        lemma_ext_facts(s4, from, s5, ee, fe, lang);
                        lemma_ext_edges(s4, from, s5, ee, fe, s6, lang);
                        lemma_ext_fork(st, preds, s2, cond, f0, s4, te, ft, s6, ee, fe, lang);
                    }
                } else {
                    if te.len() > 0 {
                        let s5 = s4.connect(cond, te[0], EdgeKind::False);
                        if s5.failed is Some {
                            lemma_ext_failed(st, preds, s, r, fl, lang);
                        } else {
                            lemma_ext_edges(s2, from, s4, te, ft, s5, lang);
                            assert forall|x: int| 0 <= x < te.len() implies in_front(
                                te + te,
                                (#[trigger] te[x]) as int,
                            ) || settled(s5.graph, te[x] as int) by {
                                assert((te + te)[x] == te[x]);
                            }
                            lemma_ext_facts(s2, from, s5, te, ft, lang);
                            lemma_ext_front(s2, from, s5, te, ft, te + te, lang);
                            lemma_ext_compose(
                                st,
                                preds,
                                s2,
                                from,
                                f0,
                                s5,
                                te + te,
                                Flow { ok: ft.ok, out: (te + te).len() > 0 },
                                lang,
                            );
                        }
                    } else {
                        lemma_ext_compose(st, preds, s2, from, f0, s4, te, ft, lang);
                    }
                }
            }
        } else {
            let s3 = s2.connect(cond, cond, EdgeKind::False);
            if s3.failed is Some {
                lemma_ext_failed(st, preds, s, r, fl, lang);
            } else {
                lemma_ext_edges(st, preds, s2, from, f0, s3, lang);
                let r2 = seq![cond, cond];
                lemma_ext_front(st, preds, s3, from, f0, r2, lang);
            }
        }
    }
}

/// Lowering a subtree keeps what holds of the graph.
pub proof fn lemma_lower(ast: SyntaxNode, preds: Seq<usize>, st: BuildModel, lang: Seq<char>, code: Seq<u8>)
    requires
        fronts(st, preds),
        st.graph.nodes.len() >= 2,
    ensures
        extends(
            st,
            preds,
            lower(ast, preds, st, lang, code).0,
            lower(ast, preds, st, lang, code).1,
            flow(ast, lang, preds.len() > 0),
            lang,
        ),
    decreases ast, ast.children@.len() + 1,
{
    let k = kind_of(lang, ast.kind@);
    let (s, r) = lower(ast, preds, st, lang, code);
    let fl = flow(ast, lang, preds.len() > 0);
    if st.failed is Some {
        lemma_ext_failed(st, preds, s, r, fl, lang);
    } else if k == Kind::Trivia {
        lemma_ext_pass(st, preds, lang);
    } else if k == Kind::SourceFile || k == Kind::Block {
        lemma_lower_upto(ast, ast.children@.len(), preds, st, lang, code);
    } else if k == Kind::Return || k == Kind::Break || k == Kind::Continue {
        let kind = if k == Kind::Return {
            StmtKind::Return
        } else if k == Kind::Break {
            StmtKind::Break
        } else {
            StmtKind::Continue
        };
        lemma_lower_node(kind, ast, preds, st, lang, code, false);
    } else if k == Kind::If {
        lemma_lower_if(ast, preds, st, lang, code);
    } else if k == Kind::InfiniteLoop || k == Kind::While || k == Kind::For {
        lemma_lower_loop(ast, preds, st, lang, code);
    } else if k == Kind::Function {
        lemma_lower_function(ast, preds, st, lang, code);
    } else if k == Kind::CallWrapper {
        let inner = branch_index(ast.children@, lang, 0);
        if 0 <= inner < ast.children@.len() {
            lemma_lower(ast.children@[inner], preds, st, lang, code);
        } else {
            let kind = if call_index(ast.children@, lang, 0) < ast.children@.len() {
                StmtKind::Call
            } else {
                StmtKind::Sequential
            };
            lemma_lower_node(kind, ast, preds, st, lang, code, true);
        }
    } else {
        lemma_lower_node(StmtKind::Sequential, ast, preds, st, lang, code, true);
    }
}

/// Lowering the first `k` children of a node keeps what holds of the graph.
proof fn lemma_lower_upto(
    ast: SyntaxNode,
    k: nat,
    preds: Seq<usize>,
    st: BuildModel,
    lang: Seq<char>,
    code: Seq<u8>,
)
    requires
        fronts(st, preds),
        st.graph.nodes.len() >= 2,
    ensures
        extends(
            st,
            preds,
            lower_upto(ast, k, preds, st, lang, code).0,
            lower_upto(ast, k, preds, st, lang, code).1,
            flow_upto(ast, lang, k, preds.len() > 0),
            lang,
        ),
    decreases ast, k,
{
    if k == 0 || k > ast.children@.len() {
        lemma_ext_pass(st, preds, lang);
    } else {
        let (s, f) = lower_upto(ast, (k - 1) as nat, preds, st, lang, code);
        let f1 = flow_upto(ast, lang, (k - 1) as nat, preds.len() > 0);
        lemma_lower_upto(ast, (k - 1) as nat, preds, st, lang, code);
        let (s2, r) = lower(ast.children@[k - 1], f, s, lang, code);
        if s.failed is Some {
            lemma_ext_failed(
                st,
                preds,
                s2,
                r,
                flow_upto(ast, lang, k, preds.len() > 0),
                lang,
            );
        } else {
            lemma_ext_facts(st, preds, s, f, f1, lang);
            lemma_lower(ast.children@[k - 1], f, s, lang, code);
            lemma_ext_compose(
                st,
                preds,
                s,
                f,
                f1,
                s2,
                r,
                flow(ast.children@[k - 1], lang, f.len() > 0),
                lang,
            );
        }
    }
}

/// Lowering a loop keeps what holds of the graph.
proof fn lemma_lower_loop(ast: SyntaxNode, preds: Seq<usize>, st: BuildModel, lang: Seq<char>, code: Seq<u8>)
    requires
        fronts(st, preds),
        st.graph.nodes.len() >= 2,
        st.failed is None,
        kind_of(lang, ast.kind@) == Kind::InfiniteLoop || kind_of(lang, ast.kind@) == Kind::While
            || kind_of(lang, ast.kind@) == Kind::For,
    ensures
        extends(
            st,
            preds,
            lower(ast, preds, st, lang, code).0,
            lower(ast, preds, st, lang, code).1,
            flow(ast, lang, preds.len() > 0),
            lang,
        ),
    decreases ast, 0nat,
{
    let k = kind_of(lang, ast.kind@);
    let info = node_model(StmtKind::Loop, ast, lang, code);
    let (s1, header) = st.push(info);
    let s2 = s1.connect_all(preds, header, EdgeKind::Sequential);
    let f0 = Flow { ok: preds.len() > 0, out: true };
    let from = seq![header];
    lemma_lower_node(StmtKind::Loop, ast, preds, st, lang, code, true);
    lemma_node_model_fits(StmtKind::Loop, ast, lang, code);
    let (s, r) = lower(ast, preds, st, lang, code);
    let fl = flow(ast, lang, preds.len() > 0);
    let b = body_index(ast, lang, k != Kind::InfiniteLoop);
    if !(0 <= b < ast.children@.len()) {
        lemma_ext_failed(st, preds, s, r, fl, lang);
    } else if s2.failed is Some {
        lemma_lower_failed(ast.children@[b], from, s2, lang, code);
        lemma_connect_all_failed(s2, Seq::empty(), header, EdgeKind::Back);
        lemma_ext_failed(st, preds, s, r, fl, lang);
    } else {
        lemma_add_shape(st, info, preds);
        lemma_ext_facts(st, preds, s2, from, f0, lang);
        let (s3, be) = lower(ast.children@[b], from, s2, lang, code);
        let fb = flow(ast.children@[b], lang, true);
        lemma_lower(ast.children@[b], from, s2, lang, code);
        let s4 = s3.connect_all(be, header, EdgeKind::Back);
        if s4.failed is Some {
            lemma_ext_failed(st, preds, s, r, fl, lang);
        } else {
            lemma_connect_upto(s3, be, header, EdgeKind::Back, be.len() as int);
            lemma_ext_facts(s2, from, s3, be, fb, lang);
            assert(s2.graph.nodes[header as int] == info);
            let added = Seq::new(
                be.len(),
                |x: int| EdgeModel { src: be[x] as int, dst: header as int, kind: EdgeKind::Back },
            );
            lemma_ext_edges(s2, from, s3, be, fb, s4, lang);
            let r2 = if k == Kind::InfiniteLoop {
                be.push(header)
            } else {
                from
            };
            assert forall|x: int| 0 <= x < be.len() implies in_front(r2, (#[trigger] be[x]) as int)
                || settled(s4.graph, be[x] as int) by {
                assert(s4.graph.edges[s3.graph.edges.len() + x] == added[x]);
            }
            lemma_ext_front(s2, from, s4, be, fb, r2, lang);
            lemma_ext_compose(
                st,
                preds,
                s2,
                from,
                f0,
                s4,
                r2,
                Flow { ok: fb.ok, out: r2.len() > 0 },
                lang,
            );
        }
    }
}

/// Lowering a function keeps what holds of the graph.
proof fn lemma_lower_function(
    ast: SyntaxNode,
    preds: Seq<usize>,
    st: BuildModel,
    lang: Seq<char>,
    code: Seq<u8>,
)
    requires
        fronts(st, preds),
        st.graph.nodes.len() >= 2,
        st.failed is None,
        kind_of(lang, ast.kind@) == Kind::Function,
    ensures
        extends(
            st,
            preds,
            lower(ast, preds, st, lang, code).0,
            lower(ast, preds, st, lang, code).1,
            flow(ast, lang, preds.len() > 0),
            lang,
        ),
    decreases ast, 0nat,
{
    let info = node_model(StmtKind::Sequential, ast, lang, code);
    let (s1, entry) = st.push(info);
    let s2 = s1.connect_all(preds, entry, EdgeKind::Sequential);
    let f0 = Flow { ok: preds.len() > 0, out: true };
    let from = seq![entry];
    lemma_lower_node(StmtKind::Sequential, ast, preds, st, lang, code, true);
    let (s, r) = lower(ast, preds, st, lang, code);
    let fl = flow(ast, lang, preds.len() > 0);
    let b = body_index(ast, lang, false);
    if !(0 <= b < ast.children@.len()) {
        lemma_ext_failed(st, preds, s, r, fl, lang);
    } else if s2.failed is Some {
        lemma_lower_failed(ast.children@[b], from, s2, lang, code);
        lemma_ext_failed(st, preds, s, r, fl, lang);
    } else {
        lemma_add_shape(st, info, preds);
        lemma_ext_facts(st, preds, s2, from, f0, lang);
        let (s3, be) = lower(ast.children@[b], from, s2, lang, code);
        let fb = flow(ast.children@[b], lang, true);
        lemma_lower(ast.children@[b], from, s2, lang, code);
        if s3.failed is Some {
            lemma_ext_failed(st, preds, s, r, fl, lang);
        } else {
            lemma_ext_facts(s2, from, s3, be, fb, lang);
            let exit_info = synthetic_node(StmtKind::Return, ast.start_byte, ast.end_byte);
            let (s4, exit) = s3.push(exit_info);
            let s5 = s4.connect_all(be, exit, EdgeKind::Sequential);
            lemma_ext_add(s3, exit_info, be, lang, true);
            let f2 = Flow { ok: be.len() > 0, out: true };
            lemma_ext_compose(s2, from, s3, be, fb, s5, seq![exit], f2, lang);
            lemma_ext_compose(
                st,
                preds,
                s2,
                from,
                f0,
                s5,
                seq![exit],
                Flow { ok: fb.ok && f2.ok, out: true },
                lang,
            );
            if s.failed is Some {
                lemma_ext_failed(st, preds, s, r, fl, lang);
            } else {
                lemma_ext_edges(
                    st,
                    preds,
                    s5,
                    seq![exit],
                    Flow { ok: f0.ok && (fb.ok && f2.ok), out: true },
                    s,
                    lang,
                );
            }
        }
    }
}


/// No statement of the tree is cut off from what comes before it, and
/// control falls out of the tree: nothing follows a statement that ends its
/// path, and no function ends in one.
pub open spec fn steady(tree: SyntaxNode, lang: Seq<char>) -> bool {
    flow(tree, lang, true).ok && flow(tree, lang, true).out
}

/// Every node and every edge of the graph fits; every node that does not
/// end its path, but for the exit, has an edge that leaves it.
pub open spec fn well_formed(g: CfgModel, lang: Seq<char>) -> bool {
    &&& sound(g, lang)
    &&& forall|i: int| 0 <= i < g.nodes.len() ==> #[trigger] settled(g, i)
}

/// Every node can be reached from the entry, and every node but the entry
/// has an edge that enters it.
pub open spec fn connected(g: CfgModel) -> bool {
    &&& forall|i: int| 0 <= i < g.nodes.len() ==> #[trigger] reaches(g, 0, i)
    &&& forall|i: int| 1 <= i < g.nodes.len() ==> #[trigger] has_in(g, i)
}

/// The graph of every file is well formed, and it is connected when the
/// tree is steady.
pub proof fn lemma_built_graph(tree: SyntaxNode, code: Seq<u8>, lang: Seq<char>)
    requires
        build_model(tree, code, lang).failed is None,
    ensures
        well_formed(build_model(tree, code, lang).graph, lang),
        steady(tree, lang) ==> connected(build_model(tree, code, lang).graph),
{
    let entry_info = synthetic_node(StmtKind::Entry, 0, 0);
    let exit_info = synthetic_node(StmtKind::Exit, code.len() as usize, code.len() as usize);
    let (s1, entry) = BuildModel::start().push(entry_info);
    let (s2, exit) = s1.push(exit_info);
    let from = seq![entry];
    let (s3, exits) = lower(tree, from, s2, lang, code);
    let s4 = s3.connect_all(exits, exit, EdgeKind::Sequential);
    let fl = flow(tree, lang, true);
    lemma_connect_upto(s3, exits, exit, EdgeKind::Sequential, exits.len() as int);
    if s2.failed is Some {
        lemma_lower_failed(tree, from, s2, lang, code);
    }
    lemma_lower(tree, from, s2, lang, code);
    lemma_ext_facts(s2, from, s3, exits, fl, lang);
    let added = Seq::new(
        exits.len(),
        |x: int| EdgeModel { src: exits[x] as int, dst: exit as int, kind: EdgeKind::Sequential },
    );
    lemma_ext_edges(s2, from, s3, exits, fl, s4, lang);
    reveal(extends);
    let g = s4.graph;
    assert forall|i: int| 0 <= i < g.nodes.len() implies #[trigger] settled(g, i) by {
        if !settled(g, i) {
            if in_front(exits, i) {
                let x = choose|x: int| 0 <= x < exits.len() && (#[trigger] exits[x]) as int == i;
                assert(g.edges[s3.graph.edges.len() + x] == added[x]);
            }
        }
    }
    if steady(tree, lang) {
        assert(g.edges[s3.graph.edges.len() as int] == added[0]);
        lemma_linked_graph(g);
    }
}


/// The flow through the subtree `ast`, entered or not.
pub fn flow_of(ast: &SyntaxNode, lang: &str, entered: bool) -> (r: Flow)
    ensures
        r == flow(*ast, lang@, entered),
    decreases ast,
{
    let n = ast.children.len();
    match lookup(lang, ast.kind.as_str()) {
        Kind::Trivia => Flow { ok: true, out: entered },
        Kind::SourceFile | Kind::Block => {
            let mut f = Flow { ok: true, out: entered };
            let mut i: usize = 0;
            while i < n
                invariant
                    i <= n,
                    n == ast.children@.len(),
                    f == flow_upto(*ast, lang@, i as nat, entered),
                decreases n - i,
            {
                let last = flow_of(&ast.children[i], lang, f.out);
                f = Flow { ok: f.ok && last.ok, out: last.out };
                i += 1;
            }
            f
        },
        Kind::Return | Kind::Break | Kind::Continue => Flow { ok: entered, out: false },
        Kind::If => {
            let first = find_block(ast, lang, 0);
            if first < n {
                let second = find_block(ast, lang, first + 1);
                let t = flow_of(&ast.children[first], lang, true);
                if second < n {
                    let e = flow_of(&ast.children[second], lang, true);
                    Flow { ok: entered && t.ok && e.ok, out: t.out || e.out }
                } else {
                    Flow { ok: entered && t.ok, out: t.out }
                }
            } else {
                Flow { ok: entered, out: true }
            }
        },
        Kind::InfiniteLoop => {
            let b = find_body(ast, lang, false);
            if b < n {
                let f = flow_of(&ast.children[b], lang, true);
                Flow { ok: entered && f.ok, out: true }
            } else {
                Flow { ok: false, out: false }
            }
        },
        Kind::While | Kind::For => {
            let b = find_body(ast, lang, true);
            if b < n {
                let f = flow_of(&ast.children[b], lang, true);
                Flow { ok: entered && f.ok, out: true }
            } else {
                Flow { ok: false, out: false }
            }
        },
        Kind::Function => {
            let b = find_body(ast, lang, false);
            if b < n {
                let f = flow_of(&ast.children[b], lang, true);
                Flow { ok: entered && f.ok && f.out, out: true }
            } else {
                Flow { ok: false, out: false }
            }
        },
        Kind::CallWrapper => {
            let inner = find_branch(ast, lang, 0);
            if inner < n {
                flow_of(&ast.children[inner], lang, entered)
            } else {
                Flow { ok: entered, out: true }
            }
        },
        _ => Flow { ok: entered, out: true },
    }
}

/// Whether the tree is steady.
pub fn is_steady(tree: &SyntaxNode, lang: &str) -> (r: bool)
    ensures
        r == steady(*tree, lang@),
{
    let f = flow_of(tree, lang, true);
    f.ok && f.out
}

} // verus!
