//! The taint engine: a transfer function over the taint lattice and a
//! worklist search for flows from a source into a sink that still carry a
//! capability the sink cares about.

use crate::graph::{Cfg, CfgModel, NodeInfo, NodeModel, StmtKind};
use crate::labels::{Cap, DataLabel};
use crate::lattice::{canonical, caps_at, join_all, joined_caps, with_caps, Taint};
use crate::summary::{FuncSummaries, FuncSummary};
use vstd::prelude::*;

verus! {

/// The label that governs a node: its own, and for an unlabelled call of a
/// summarized function, the label of the summary.
pub open spec fn effective_label(n: NodeModel, summaries: Map<Seq<char>, FuncSummary>) -> Option<
    DataLabel,
> {
    match n.label {
        Some(l) => Some(l),
        None => match n.callee {
            Some(c) => if n.kind == StmtKind::Call && summaries.contains_key(c) {
                summaries[c].label
            } else {
                None
            },
            None => None,
        },
    }
}

/// The transfer function. A source adds its capabilities to the variable
/// that the node defines, a sanitizer takes its capabilities away from it,
/// a sink changes nothing, and any other node gives the variable that it
/// defines the union of what the variables that it uses carry.
pub open spec fn step(
    n: NodeModel,
    t: Map<Seq<char>, Cap>,
    summaries: Map<Seq<char>, FuncSummary>,
) -> Map<Seq<char>, Cap> {
    match n.defines {
        None => t,
        Some(v) => match effective_label(n, summaries) {
            Some(DataLabel::Source(c)) => with_caps(t, v, caps_at(t, v).spec_union(c)),
            Some(DataLabel::Sanitizer(c)) => with_caps(t, v, caps_at(t, v).spec_difference(c)),
            Some(DataLabel::Sink(_)) => t,
            None => with_caps(t, v, join_all(t, n.uses)),
        },
    }
}

/// Whether some variable that the node uses still carries, in the state
/// `t`, a capability that the node consumes as a sink.
pub open spec fn sink_fires(n: NodeModel, t: Map<Seq<char>, Cap>) -> bool {
    match n.label {
        Some(DataLabel::Sink(c)) => exists|i: int|
            0 <= i < n.uses.len() && caps_at(t, #[trigger] n.uses[i]).spec_intersects(c),
        _ => false,
    }
}

pub open spec fn is_source(n: NodeModel) -> bool {
    n.label matches Some(DataLabel::Source(_))
}

/// A sanitizer leaves a state unchanged in which the variable that it
/// defines carries none of the capabilities that it clears.
pub proof fn lemma_sanitizer_on_clean(
    n: NodeModel,
    t: Map<Seq<char>, Cap>,
    summaries: Map<Seq<char>, FuncSummary>,
    c: Cap,
    v: Seq<char>,
)
    requires
        canonical(t),
        effective_label(n, summaries) == Some(DataLabel::Sanitizer(c)),
        n.defines == Some(v),
        !caps_at(t, v).spec_intersects(c),
    ensures
        step(n, t, summaries) == t,
{
    let x = caps_at(t, v).raw;
    let m = c.raw;
    assert(x & m == 0 ==> x & !m == x) by (bit_vector);
}

/// Applying a sanitizer twice is applying it once.
pub proof fn lemma_sanitizer_idempotent(
    n: NodeModel,
    t: Map<Seq<char>, Cap>,
    summaries: Map<Seq<char>, FuncSummary>,
    c: Cap,
)
    requires
        effective_label(n, summaries) == Some(DataLabel::Sanitizer(c)),
    ensures
        step(n, step(n, t, summaries), summaries) == step(n, t, summaries),
{
    match n.defines {
        Some(v) => {
            let x = caps_at(t, v).raw;
            let m = c.raw;
            assert((x & !m) & !m == x & !m) by (bit_vector);
        },
        None => {},
    }
}

/// A source followed by a source on the same variable leaves it with what
/// it carried before and the capabilities of both.
pub proof fn lemma_sources_accumulate(
    first: NodeModel,
    second: NodeModel,
    t: Map<Seq<char>, Cap>,
    summaries: Map<Seq<char>, FuncSummary>,
    c1: Cap,
    c2: Cap,
    v: Seq<char>,
)
    requires
        effective_label(first, summaries) == Some(DataLabel::Source(c1)),
        effective_label(second, summaries) == Some(DataLabel::Source(c2)),
        first.defines == Some(v),
        second.defines == Some(v),
    ensures
        caps_at(step(second, step(first, t, summaries), summaries), v) == caps_at(
            t,
            v,
        ).spec_union(c1).spec_union(c2),
        !t.contains_key(v) ==> caps_at(step(second, step(first, t, summaries), summaries), v)
            == c1.spec_union(c2),
{
    let x = caps_at(t, v).raw;
    let a = c1.raw;
    let b = c2.raw;
    assert(0u8 | a == a) by (bit_vector);
    assert((x | a) | b == 0 ==> x | a == 0) by (bit_vector);
    assert(0u8 | b == b) by (bit_vector);
}

/// The state after a node.
pub fn apply_taint(node: &NodeInfo, taint: &Taint, summaries: &FuncSummaries) -> (out: Taint)
    ensures
        out@ == step(node@, taint@, summaries@),
{
    let mut out = taint.duplicate();
    let v = match &node.defines {
        Some(v) => v,
        None => {
            return out;
        },
    };
    let label = match node.label {
        Some(l) => Some(l),
        None => match &node.callee {
            Some(c) => if node.kind == StmtKind::Call {
                match summaries.get(c.as_str()) {
                    Some(s) => s.label,
                    None => None,
                }
            } else {
                None
            },
            None => None,
        },
    };
    match label {
        Some(DataLabel::Source(c)) => {
            let held = out.get(v.as_str());
            out.set(v.as_str(), held.union(c));
        },
        Some(DataLabel::Sanitizer(c)) => {
            let held = out.get(v.as_str());
            out.set(v.as_str(), held.difference(c));
        },
        Some(DataLabel::Sink(_)) => {},
        None => {
            let combined = out.join(&node.uses);
            out.set(v.as_str(), combined);
        },
    }
    out
}

/// Whether a sink consumes, in the state `out`, a capability that one of
/// the variables it uses still carries.
pub fn sink_check(node: &NodeInfo, out: &Taint) -> (hit: bool)
    ensures
        hit == sink_fires(node@, out@),
{
    match node.label {
        Some(DataLabel::Sink(c)) => {
            let mut i: usize = 0;
            while i < node.uses.len()
                invariant
                    i <= node.uses.len(),
                    node.label == Some(DataLabel::Sink(c)),
                    forall|j: int|
                        0 <= j < i ==> !caps_at(out@, #[trigger] node@.uses[j]).spec_intersects(c),
                decreases node.uses.len() - i,
            {
                if out.get(node.uses[i].as_str()).intersects(c) {
                    assert(caps_at(out@, node@.uses[i as int]).spec_intersects(c));
                    return true;
                }
                i += 1;
            }
            false
        },
        _ => false,
    }
}


/// One state of the search: a node and the taint with which it is reached.
pub struct StateModel {
    pub node: int,
    pub taint: Map<Seq<char>, Cap>,
}

/// What a search has visited: the states in the order of their discovery,
/// and for each the index of the state from which it was discovered, which
/// is -1 for the first.
pub struct SearchModel {
    pub states: Seq<StateModel>,
    pub parents: Seq<int>,
}

/// The taint that leaves the node of a state.
pub open spec fn out_of(g: CfgModel, summaries: Map<Seq<char>, FuncSummary>, s: StateModel) -> Map<
    Seq<char>,
    Cap,
> {
    step(g.nodes[s.node], s.taint, summaries)
}

impl SearchModel {
    /// The search begins at `entry` with nothing tainted, holds no state
    /// twice, and every other state follows its parent along an edge of the
    /// graph with the taint that leaves the parent.
    pub open spec fn rooted(
        self,
        g: CfgModel,
        summaries: Map<Seq<char>, FuncSummary>,
        entry: int,
    ) -> bool {
        &&& self.states.len() == self.parents.len()
        &&& self.states.len() > 0
        &&& self.states[0] == StateModel { node: entry, taint: Map::empty() }
        &&& self.parents[0] == -1
        &&& self.states.no_duplicates()
        &&& forall|i: int|
            0 <= i < self.states.len() ==> 0 <= (#[trigger] self.states[i]).node < g.nodes.len()
        &&& forall|i: int|
            0 < i < self.states.len() ==> {
                &&& 0 <= #[trigger] self.parents[i] < i
                &&& g.successors(self.states[self.parents[i]].node).contains(self.states[i].node)
                &&& self.states[i].taint == out_of(g, summaries, self.states[self.parents[i]])
            }
    }

    /// Every successor of state `i` is among the states, with the taint that
    /// leaves state `i`.
    pub open spec fn expanded(
        self,
        g: CfgModel,
        summaries: Map<Seq<char>, FuncSummary>,
        i: int,
    ) -> bool {
        forall|j: int|
            0 <= j < g.successors(self.states[i].node).len() ==> self.states.contains(
                StateModel {
                    node: #[trigger] g.successors(self.states[i].node)[j],
                    taint: out_of(g, summaries, self.states[i]),
                },
            )
    }

    /// Every state is expanded.
    pub open spec fn closed(self, g: CfgModel, summaries: Map<Seq<char>, FuncSummary>) -> bool {
        forall|i: int| 0 <= i < self.states.len() ==> self.expanded(g, summaries, i)
    }

    /// The search before anything is expanded.
    pub open spec fn start(entry: int) -> SearchModel {
        SearchModel {
            states: seq![StateModel { node: entry, taint: Map::empty() }],
            parents: seq![-1int],
        }
    }

    /// Visits `s` from the state at index `parent`, unless it was visited
    /// before.
    pub open spec fn visit(self, s: StateModel, parent: int) -> SearchModel {
        if self.states.contains(s) {
            self
        } else {
            SearchModel { states: self.states.push(s), parents: self.parents.push(parent) }
        }
    }

    /// Visits the first `k` successors of the state at index `head`, in the
    /// order of the edges.
    pub open spec fn expand_upto(
        self,
        g: CfgModel,
        summaries: Map<Seq<char>, FuncSummary>,
        head: int,
        k: int,
    ) -> SearchModel
        decreases k,
    {
        if k <= 0 || k > g.successors(self.states[head].node).len() {
            self
        } else {
            self.expand_upto(g, summaries, head, k - 1).visit(
                StateModel {
                    node: g.successors(self.states[head].node)[k - 1],
                    taint: out_of(g, summaries, self.states[head]),
                },
                head,
            )
        }
    }

    /// Visits all successors of the state at index `head`.
    pub open spec fn expand(
        self,
        g: CfgModel,
        summaries: Map<Seq<char>, FuncSummary>,
        head: int,
    ) -> SearchModel {
        self.expand_upto(g, summaries, head, g.successors(self.states[head].node).len() as int)
    }

    /// Expands the states from index `head` on, one after the other, until
    /// none is left or `fuel` runs out.
    pub open spec fn run(
        self,
        g: CfgModel,
        summaries: Map<Seq<char>, FuncSummary>,
        head: int,
        fuel: nat,
    ) -> SearchModel
        decreases fuel,
    {
        if fuel == 0 || head < 0 || head >= self.states.len() {
            self
        } else {
            self.expand(g, summaries, head).run(g, summaries, head + 1, (fuel - 1) as nat)
        }
    }

    /// Whether the node of state `i` is a sink that fires.
    pub open spec fn fires(self, g: CfgModel, summaries: Map<Seq<char>, FuncSummary>, i: int) -> bool {
        sink_fires(g.nodes[self.states[i].node], out_of(g, summaries, self.states[i]))
    }

    /// The nodes from state `p` back towards the first state, as far as the
    /// nearest node that is labelled a source.
    pub open spec fn way_back(self, g: CfgModel, p: int) -> Seq<usize>
        decreases p,
    {
        if p < 0 || p >= self.states.len() || p >= self.parents.len() {
            Seq::empty()
        } else if is_source(g.nodes[self.states[p].node]) || !(0 <= self.parents[p] < p) {
            seq![self.states[p].node as usize]
        } else {
            seq![self.states[p].node as usize] + self.way_back(g, self.parents[p])
        }
    }

    /// The path that is reported for state `i`: from the nearest ancestor
    /// whose node is labelled a source, or from the first state, to `i`.
    pub open spec fn path(self, g: CfgModel, i: int) -> Seq<usize> {
        (seq![self.states[i].node as usize] + self.way_back(g, self.parents[i])).reverse()
    }

    /// The paths of the states among the first `k` whose sink fires, in the
    /// order of the states.
    pub open spec fn report(
        self,
        g: CfgModel,
        summaries: Map<Seq<char>, FuncSummary>,
        k: int,
    ) -> Seq<Seq<usize>>
        decreases k,
    {
        if k <= 0 || k > self.states.len() {
            Seq::empty()
        } else if self.fires(g, summaries, k - 1) {
            self.report(g, summaries, k - 1).push(self.path(g, k - 1))
        } else {
            self.report(g, summaries, k - 1)
        }
    }
}

/// More states than this no graph of this size has.
pub open spec fn state_limit(g: CfgModel) -> nat {
    if bound(g.nodes.len() as int, g.nodes.len() as int) >= 0 {
        bound(g.nodes.len() as int, g.nodes.len() as int) as nat
    } else {
        0
    }
}

/// The search of a graph from `entry`: breadth first, the successors of a
/// state in the order of its edges.
pub open spec fn search(g: CfgModel, summaries: Map<Seq<char>, FuncSummary>, entry: int) -> SearchModel {
    SearchModel::start(entry).run(g, summaries, 0, state_limit(g))
}

pub open spec fn paths(f: Seq<Vec<usize>>) -> Seq<Seq<usize>> {
    Seq::new(f.len(), |i: int| f[i]@)
}

spec fn digit(t: Map<Seq<char>, Cap>, n: NodeModel) -> int {
    match n.defines {
        Some(v) => caps_at(t, v).raw as int,
        None => 0,
    }
}

/// A number for a state: the index of its node, followed in base 256 by
/// what each variable that a node defines carries.
spec fn code(s: StateModel, nodes: Seq<NodeModel>, k: int) -> int
    decreases k,
{
    if k <= 0 || k > nodes.len() {
        s.node
    } else {
        code(s, nodes, k - 1) * 256 + digit(s.taint, nodes[k - 1])
    }
}

pub open spec fn bound(n: int, k: int) -> int
    decreases k,
{
    if k <= 0 {
        n
    } else {
        bound(n, k - 1) * 256
    }
}

/// Only variables that some node defines are tainted.
spec fn supported(t: Map<Seq<char>, Cap>, nodes: Seq<NodeModel>) -> bool {
    forall|v: Seq<char>| #[trigger]
        t.contains_key(v) ==> exists|i: int|
            0 <= i < nodes.len() && (#[trigger] nodes[i]).defines == Some(v)
}

proof fn lemma_bound_nonnegative(n: int, k: int)
    requires
        0 <= n,
    ensures
        0 <= bound(n, k),
    decreases k,
{
    if k > 0 {
        lemma_bound_nonnegative(n, k - 1);
    }
}

proof fn lemma_code_bound(s: StateModel, nodes: Seq<NodeModel>, k: int)
    requires
        0 <= s.node < nodes.len(),
        0 <= k <= nodes.len(),
    ensures
        0 <= code(s, nodes, k) < bound(nodes.len() as int, k),
    decreases k,
{
    if k > 0 {
        lemma_code_bound(s, nodes, k - 1);
    }
}

proof fn lemma_code_digits(a: StateModel, b: StateModel, nodes: Seq<NodeModel>, k: int)
    requires
        0 <= k <= nodes.len(),
        code(a, nodes, k) == code(b, nodes, k),
    ensures
        a.node == b.node,
        forall|i: int| 0 <= i < k ==> digit(a.taint, #[trigger] nodes[i]) == digit(b.taint, nodes[i]),
    decreases k,
{
    if k > 0 {
        lemma_code_digits(a, b, nodes, k - 1);
    }
}

proof fn lemma_digits_decide(a: Map<Seq<char>, Cap>, b: Map<Seq<char>, Cap>, nodes: Seq<NodeModel>)
    requires
        canonical(a),
        canonical(b),
        supported(a, nodes),
        supported(b, nodes),
        forall|i: int| 0 <= i < nodes.len() ==> digit(a, #[trigger] nodes[i]) == digit(b, nodes[i]),
    ensures
        a == b,
{
}

proof fn lemma_step_supported(
    nodes: Seq<NodeModel>,
    i: int,
    t: Map<Seq<char>, Cap>,
    summaries: Map<Seq<char>, FuncSummary>,
)
    requires
        0 <= i < nodes.len(),
        supported(t, nodes),
    ensures
        supported(step(nodes[i], t, summaries), nodes),
{
}

/// States that differ have different numbers, so a search holds no more
/// states than there are numbers.
proof fn lemma_states_bounded(states: Seq<StateModel>, nodes: Seq<NodeModel>)
    requires
        states.no_duplicates(),
        forall|q: int| 0 <= q < states.len() ==> 0 <= (#[trigger] states[q]).node < nodes.len(),
        forall|q: int| 0 <= q < states.len() ==> canonical((#[trigger] states[q]).taint),
        forall|q: int| 0 <= q < states.len() ==> supported((#[trigger] states[q]).taint, nodes),
    ensures
        states.len() <= bound(nodes.len() as int, nodes.len() as int),
{
    let n = nodes.len() as int;
    let b = bound(n, n);
    let codes = Seq::new(states.len(), |q: int| code(states[q], nodes, n));
    assert forall|x: int, y: int|
        0 <= x < codes.len() && 0 <= y < codes.len() && x != y implies codes[x] != codes[y] by {
        if codes[x] == codes[y] {
            lemma_code_digits(states[x], states[y], nodes, n);
            lemma_digits_decide(states[x].taint, states[y].taint, nodes);
        }
    }
    codes.unique_seq_to_set();
    if states.len() > 0 {
        lemma_code_bound(states[0], nodes, n);
        vstd::set_lib::lemma_int_range(0, b);
        assert forall|c: int| codes.to_set().contains(c) implies vstd::set_lib::set_int_range(
            0,
            b,
        ).contains(c) by {
            let q = choose|q: int| 0 <= q < codes.len() && codes[q] == c;
            lemma_code_bound(states[q], nodes, n);
        }
        vstd::set_lib::lemma_len_subset(codes.to_set(), vstd::set_lib::set_int_range(0, b));
    } else {
        lemma_bound_nonnegative(n, n);
    }
}

#[derive(Debug)]
struct Visit {
    node: usize,
    taint: Taint,
    parent: Option<usize>,
}

spec fn state_of(v: Visit) -> StateModel {
    StateModel { node: v.node as int, taint: v.taint@ }
}

spec fn parent_of(v: Visit) -> int {
    match v.parent {
        Some(p) => p as int,
        None => -1,
    }
}

spec fn search_of(visits: Seq<Visit>) -> SearchModel {
    SearchModel {
        states: Seq::new(visits.len(), |i: int| state_of(visits[i])),
        parents: Seq::new(visits.len(), |i: int| parent_of(visits[i])),
    }
}

/// Whether the state of `node` with `taint` has been visited.
fn is_seen(visits: &Vec<Visit>, node: usize, taint: &Taint) -> (r: bool)
    ensures
        r == search_of(visits@).states.contains(StateModel { node: node as int, taint: taint@ }),
{
    let ghost states = search_of(visits@).states;
    let ghost want = StateModel { node: node as int, taint: taint@ };
    let mut q: usize = 0;
    while q < visits.len()
        invariant
            q <= visits.len(),
            states == search_of(visits@).states,
            want == (StateModel { node: node as int, taint: taint@ }),
            forall|x: int| 0 <= x < q ==> states[x] != want,
        decreases visits.len() - q,
    {
        if visits[q].node == node && visits[q].taint.same(taint) {
            assert(states[q as int] == want);
            return true;
        }
        q += 1;
    }
    false
}

/// The path that is reported for the visit at index `i`.
fn path_to(visits: &Vec<Visit>, cfg: &Cfg, i: usize) -> (r: Vec<usize>)
    requires
        cfg.wf(),
        i < visits@.len(),
        forall|q: int| 0 <= q < visits@.len() ==> (#[trigger] visits@[q]).node < cfg@.nodes.len(),
        forall|q: int| 0 <= q < visits@.len() ==> parent_of(#[trigger] visits@[q]) < q,
    ensures
        r@ == search_of(visits@).path(cfg@, i as int),
{
    let ghost sm = search_of(visits@);
    let ghost whole = seq![visits@[i as int].node] + sm.way_back(cfg@, sm.parents[i as int]);
    let mut rev: Vec<usize> = Vec::new();
    rev.push(visits[i].node);
    let mut cur: Option<usize> = visits[i].parent;
    while cur.is_some()
        invariant
            cfg.wf(),
            sm == search_of(visits@),
            i < visits@.len(),
            forall|q: int| 0 <= q < visits@.len() ==> (#[trigger] visits@[q]).node < cfg@.nodes.len(),
            forall|q: int| 0 <= q < visits@.len() ==> parent_of(#[trigger] visits@[q]) < q,
            cur matches Some(p) ==> p < visits@.len(),
            whole == rev@ + sm.way_back(
                cfg@,
                match cur {
                    Some(p) => p as int,
                    None => -1,
                },
            ),
        decreases
                match cur {
                    Some(p) => p as int + 1,
                    None => 0,
                },
    {
        let p = cur.unwrap();
        rev.push(visits[p].node);
        let source = match cfg.node(visits[p].node).label {
            Some(DataLabel::Source(_)) => true,
            _ => false,
        };
        if source {
            cur = None;
        } else {
            cur = visits[p].parent;
        }
    }
    let n = rev.len();
    let mut r: Vec<usize> = Vec::new();
    let mut k: usize = 0;
    while k < n
        invariant
            k <= n,
            n == rev@.len(),
            r@.len() == k,
            forall|x: int| 0 <= x < k ==> r@[x] == rev@[n - 1 - x],
        decreases n - k,
    {
        r.push(rev[n - 1 - k]);
        k += 1;
    }
    r
}

/// Searches the graph for tainted flows into sinks. The search begins at
/// `entry` with nothing tainted and visits every state, a node together
/// with the taint that reaches it, that can be reached along the edges of
/// the graph; it visits no state twice. For every visited state whose node
/// is a sink that fires it reports one path: the nodes from the nearest
/// ancestor labelled a source, or from the first state, to the sink.
pub fn analyse_file(cfg: &Cfg, entry: usize, summaries: &FuncSummaries) -> (findings: Vec<Vec<usize>>)
    requires
        cfg.wf(),
        entry < cfg@.nodes.len(),
    ensures
        search(cfg@, summaries@, entry as int).rooted(cfg@, summaries@, entry as int),
        search(cfg@, summaries@, entry as int).closed(cfg@, summaries@),
        paths(findings@) == search(cfg@, summaries@, entry as int).report(
            cfg@,
            summaries@,
            search(cfg@, summaries@, entry as int).states.len() as int,
        ),
        forall|x: int| 0 <= x < findings@.len() ==> (#[trigger] findings@[x])@.len() > 0,
        forall|x: int, y: int|
            0 <= x < findings@.len() && 0 <= y < findings@[x]@.len() ==> (
            #[trigger] findings@[x]@[y]) < cfg@.nodes.len(),
{
    let ghost g = cfg@;
    let ghost sums = summaries@;
    let ghost limit = bound(g.nodes.len() as int, g.nodes.len() as int);
    let mut visits: Vec<Visit> = Vec::new();
    let first = Taint::new();
    proof {
        first.lemma_canonical();
    }
    visits.push(Visit { node: entry, taint: first, parent: None });
    let mut findings: Vec<Vec<usize>> = Vec::new();
    let mut head: usize = 0;
    proof {
        let sm = search_of(visits@);
        lemma_states_bounded(sm.states, g.nodes);
        assert(sm.states =~= SearchModel::start(entry as int).states);
        assert(sm.parents =~= SearchModel::start(entry as int).parents);
    }
    while head < visits.len()
        invariant
            cfg.wf(),
            g == cfg@,
            sums == summaries@,
            limit == bound(g.nodes.len() as int, g.nodes.len() as int),
            head <= visits@.len() <= limit,
            search_of(visits@).rooted(g, sums, entry as int),
            forall|q: int| 0 <= q < visits@.len() ==> canonical((#[trigger] visits@[q]).taint@),
            forall|q: int| 0 <= q < visits@.len() ==> supported((#[trigger] visits@[q]).taint@, g.nodes),
            forall|q: int| 0 <= q < head ==> search_of(visits@).expanded(g, sums, q),
            paths(findings@) == search_of(visits@).report(g, sums, head as int),
            search_of(visits@).run(g, sums, head as int, (limit - head) as nat) == search(
                g,
                sums,
                entry as int,
            ),
        decreases limit - head,
    {
        let ghost sm0 = search_of(visits@);
        let at = visits[head].node;
        let node = cfg.node(at);
        let out = apply_taint(node, &visits[head].taint, summaries);
        proof {
            out.lemma_canonical();
            lemma_step_supported(g.nodes, at as int, visits@[head as int].taint@, sums);
        }
        if sink_check(node, &out) {
            proof {
                assert forall|q: int| 0 <= q < visits@.len() implies parent_of(
                    #[trigger] visits@[q],
                ) < q by {
                    if q > 0 {
                        assert(0 <= sm0.parents[q] < q);
                    }
                }
                assert forall|q: int| 0 <= q < visits@.len() implies (#[trigger] visits@[q]).node
                    < cfg@.nodes.len() by {
                    assert(sm0.states[q] == state_of(visits@[q]));
                }
            }
            let p = path_to(&visits, cfg, head);
            findings.push(p);
        }
        let succs = cfg.successors(at);
        let mut j: usize = 0;
        while j < succs.len()
            invariant
                cfg.wf(),
                g == cfg@,
                sums == summaries@,
                limit == bound(g.nodes.len() as int, g.nodes.len() as int),
                head < visits@.len() <= limit,
                j <= succs@.len(),
                at == visits@[head as int].node,
                at < g.nodes.len(),
                out@ == out_of(g, sums, state_of(visits@[head as int])),
                canonical(out@),
                supported(out@, g.nodes),
                succs@.len() == g.successors(at as int).len(),
                forall|k: int| 0 <= k < succs@.len() ==> succs@[k] as int == g.successors(at as int)[k],
                forall|k: int| 0 <= k < succs@.len() ==> succs@[k] < g.nodes.len(),
                search_of(visits@).rooted(g, sums, entry as int),
                forall|q: int| 0 <= q < visits@.len() ==> canonical((#[trigger] visits@[q]).taint@),
                forall|q: int|
                    0 <= q < visits@.len() ==> supported((#[trigger] visits@[q]).taint@, g.nodes),
                forall|q: int| 0 <= q < head ==> search_of(visits@).expanded(g, sums, q),
                forall|k: int|
                    0 <= k < j ==> search_of(visits@).states.contains(
                        StateModel { node: #[trigger] g.successors(at as int)[k], taint: out@ },
                    ),
                paths(findings@) == search_of(visits@).report(g, sums, head + 1),
                sm0.states.len() > head,
                sm0.states[head as int] == state_of(visits@[head as int]),
                search_of(visits@) == sm0.expand_upto(g, sums, head as int, j as int),
            decreases succs.len() - j,
        {
            let m = succs[j];
            let ghost before = visits@;
            let ghost smb = search_of(before);
            if !is_seen(&visits, m, &out) {
                let copy = out.duplicate();
                visits.push(Visit { node: m, taint: copy, parent: Some(head) });
                proof {
                    let sma = search_of(visits@);
                    let fresh = StateModel { node: m as int, taint: out@ };
                    assert(sma.states =~= smb.states.push(fresh));
                    assert(sma.parents =~= smb.parents.push(head as int));
                    lemma_extend(smb, sma, g, sums, entry as int, fresh, head as int);
                    assert forall|q: int| 0 <= q < head implies sma.expanded(g, sums, q) by {
                        lemma_expanded_kept(smb, sma, g, sums, q, fresh, head as int);
                    }
                    assert forall|k: int| 0 <= k < j implies sma.states.contains(
                        StateModel { node: #[trigger] g.successors(at as int)[k], taint: out@ },
                    ) by {
                        let w = StateModel { node: g.successors(at as int)[k], taint: out@ };
                        let x = choose|x: int| 0 <= x < smb.states.len() && smb.states[x] == w;
                        assert(sma.states[x] == w);
                    }
                    assert(sma.states[sma.states.len() - 1] == fresh);
                    lemma_report_kept(smb, sma, g, sums, head + 1, fresh, head as int);
                    lemma_states_bounded(sma.states, g.nodes);
                }
            }
            j += 1;
        }
        assert(search_of(visits@) == sm0.expand(g, sums, head as int));
        head += 1;
    }
    proof {
        let sm = search_of(visits@);
        lemma_report_nodes(sm, g, sums, sm.states.len() as int);
        let rep = sm.report(g, sums, sm.states.len() as int);
        assert forall|x: int| 0 <= x < findings@.len() implies (#[trigger] findings@[x])@.len()
            > 0 by {
            assert(rep[x].len() > 0);
        }
        assert forall|x: int, y: int|
            0 <= x < findings@.len() && 0 <= y < findings@[x]@.len() implies (
        #[trigger] findings@[x]@[y]) < cfg@.nodes.len() by {
            assert(rep[x][y] < g.nodes.len());
        }
    }
    findings
}

/// A search that is extended by a new state stays rooted.
proof fn lemma_extend(
    a: SearchModel,
    b: SearchModel,
    g: CfgModel,
    summaries: Map<Seq<char>, FuncSummary>,
    entry: int,
    fresh: StateModel,
    parent: int,
)
    requires
        a.rooted(g, summaries, entry),
        b.states == a.states.push(fresh),
        b.parents == a.parents.push(parent),
        !a.states.contains(fresh),
        0 <= fresh.node < g.nodes.len(),
        0 <= parent < a.states.len(),
        g.successors(a.states[parent].node).contains(fresh.node),
        fresh.taint == out_of(g, summaries, a.states[parent]),
    ensures
        b.rooted(g, summaries, entry),
{
    assert forall|i: int| 0 < i < b.states.len() implies {
        &&& 0 <= #[trigger] b.parents[i] < i
        &&& g.successors(b.states[b.parents[i]].node).contains(b.states[i].node)
        &&& b.states[i].taint == out_of(g, summaries, b.states[b.parents[i]])
    } by {
    }
}

proof fn lemma_expanded_kept(
    a: SearchModel,
    b: SearchModel,
    g: CfgModel,
    summaries: Map<Seq<char>, FuncSummary>,
    q: int,
    fresh: StateModel,
    parent: int,
)
    requires
        b.states == a.states.push(fresh),
        b.parents == a.parents.push(parent),
        0 <= q < a.states.len(),
        a.expanded(g, summaries, q),
    ensures
        b.expanded(g, summaries, q),
{
    assert forall|j: int| 0 <= j < g.successors(b.states[q].node).len() implies b.states.contains(
        StateModel {
            node: #[trigger] g.successors(b.states[q].node)[j],
            taint: out_of(g, summaries, b.states[q]),
        },
    ) by {
        let w = StateModel {
            node: g.successors(a.states[q].node)[j],
            taint: out_of(g, summaries, a.states[q]),
        };
        let x = choose|x: int| 0 <= x < a.states.len() && a.states[x] == w;
        assert(b.states[x] == w);
    }
}

proof fn lemma_way_back_kept(a: SearchModel, b: SearchModel, g: CfgModel, p: int, fresh: StateModel, parent: int)
    requires
        a.states.len() == a.parents.len(),
        b.states == a.states.push(fresh),
        b.parents == a.parents.push(parent),
        p < a.states.len(),
    ensures
        b.way_back(g, p) == a.way_back(g, p),
    decreases p,
{
    if p >= 0 {
        if !(is_source(g.nodes[a.states[p].node]) || !(0 <= a.parents[p] < p)) {
            lemma_way_back_kept(a, b, g, a.parents[p], fresh, parent);
        }
    }
}

proof fn lemma_report_kept(
    a: SearchModel,
    b: SearchModel,
    g: CfgModel,
    summaries: Map<Seq<char>, FuncSummary>,
    k: int,
    fresh: StateModel,
    parent: int,
)
    requires
        a.states.len() == a.parents.len(),
        forall|i: int| 0 <= i < a.parents.len() ==> #[trigger] a.parents[i] < i,
        b.states == a.states.push(fresh),
        b.parents == a.parents.push(parent),
        0 <= k <= a.states.len(),
    ensures
        b.report(g, summaries, k) == a.report(g, summaries, k),
    decreases k,
{
    if k > 0 {
        lemma_report_kept(a, b, g, summaries, k - 1, fresh, parent);
        lemma_way_back_kept(a, b, g, a.parents[k - 1], fresh, parent);
    }
}


/// A run of the program over the graph: it begins at `entry` with nothing
/// tainted, and every state follows the one before it along an edge, with
/// the taint that leaves the one before it.
pub open spec fn is_run(
    g: CfgModel,
    summaries: Map<Seq<char>, FuncSummary>,
    entry: int,
    run: Seq<StateModel>,
) -> bool {
    &&& run.len() > 0
    &&& run[0] == StateModel { node: entry, taint: Map::empty() }
    &&& forall|i: int|
        0 <= i < run.len() - 1 ==> g.successors(run[i].node).contains((#[trigger] run[i + 1]).node)
            && run[i + 1].taint == out_of(g, summaries, run[i])
}

/// A state is reachable when some run ends in it.
pub open spec fn reachable(
    g: CfgModel,
    summaries: Map<Seq<char>, FuncSummary>,
    entry: int,
    s: StateModel,
) -> bool {
    exists|run: Seq<StateModel>| is_run(g, summaries, entry, run) && #[trigger] run.last() == s
}

proof fn lemma_visited_is_reachable(
    sm: SearchModel,
    g: CfgModel,
    summaries: Map<Seq<char>, FuncSummary>,
    entry: int,
    i: int,
) -> (run: Seq<StateModel>)
    requires
        sm.rooted(g, summaries, entry),
        0 <= i < sm.states.len(),
    ensures
        is_run(g, summaries, entry, run),
        run.last() == sm.states[i],
    decreases i,
{
    if i == 0 {
        seq![sm.states[0]]
    } else {
        let p = sm.parents[i];
        let before = lemma_visited_is_reachable(sm, g, summaries, entry, p);
        let run = before.push(sm.states[i]);
        run
    }
}

proof fn lemma_run_is_visited(
    sm: SearchModel,
    g: CfgModel,
    summaries: Map<Seq<char>, FuncSummary>,
    entry: int,
    run: Seq<StateModel>,
    k: int,
)
    requires
        sm.rooted(g, summaries, entry),
        sm.closed(g, summaries),
        is_run(g, summaries, entry, run),
        0 <= k < run.len(),
    ensures
        sm.states.contains(run[k]),
    decreases k,
{
    if k > 0 {
        lemma_run_is_visited(sm, g, summaries, entry, run, k - 1);
        let x = choose|x: int| 0 <= x < sm.states.len() && sm.states[x] == run[k - 1];
        assert(sm.expanded(g, summaries, x));
        assert(run[(k - 1) + 1] == run[k]);
    }
}

/// A search that is rooted and closed has visited exactly the reachable
/// states.
pub proof fn lemma_search_visits_reachable(
    sm: SearchModel,
    g: CfgModel,
    summaries: Map<Seq<char>, FuncSummary>,
    entry: int,
)
    requires
        sm.rooted(g, summaries, entry),
        sm.closed(g, summaries),
    ensures
        forall|s: StateModel| sm.states.contains(s) <==> reachable(g, summaries, entry, s),
{
    assert forall|s: StateModel| sm.states.contains(s) <==> reachable(g, summaries, entry, s) by {
        if sm.states.contains(s) {
            let i = choose|i: int| 0 <= i < sm.states.len() && sm.states[i] == s;
            lemma_visited_is_reachable(sm, g, summaries, entry, i);
        }
        if reachable(g, summaries, entry, s) {
            let run = choose|run: Seq<StateModel>|
                is_run(g, summaries, entry, run) && #[trigger] run.last() == s;
            lemma_run_is_visited(sm, g, summaries, entry, run, run.len() - 1);
        }
    }
}

/// Every reported path ends in a sink that fires in a reachable state, and
/// every reachable state whose sink fires has its path reported.
pub proof fn lemma_report_is_exact(
    sm: SearchModel,
    g: CfgModel,
    summaries: Map<Seq<char>, FuncSummary>,
    entry: int,
    k: int,
)
    requires
        sm.rooted(g, summaries, entry),
        0 <= k <= sm.states.len(),
    ensures
        forall|i: int|
            0 <= i < k && sm.fires(g, summaries, i) ==> sm.report(g, summaries, k).contains(
                #[trigger] sm.path(g, i),
            ),
        forall|x: int|
            0 <= x < sm.report(g, summaries, k).len() ==> exists|i: int|
                0 <= i < k && sm.fires(g, summaries, i) && (#[trigger] sm.report(
                    g,
                    summaries,
                    k,
                )[x]) == #[trigger] sm.path(g, i),
        sm.report(g, summaries, k).len() <= k,
    decreases k,
{
    if k > 0 {
        lemma_report_is_exact(sm, g, summaries, entry, k - 1);
        let before = sm.report(g, summaries, k - 1);
        let now = sm.report(g, summaries, k);
        assert forall|i: int| 0 <= i < k && sm.fires(g, summaries, i) implies now.contains(
            #[trigger] sm.path(g, i),
        ) by {
            if i < k - 1 {
                let x = choose|x: int| 0 <= x < before.len() && before[x] == sm.path(g, i);
                assert(now[x] == sm.path(g, i));
            } else {
                assert(now[now.len() - 1] == sm.path(g, i));
            }
        }
        assert forall|x: int| 0 <= x < now.len() implies exists|i: int|
            0 <= i < k && sm.fires(g, summaries, i) && (#[trigger] now[x]) == #[trigger] sm.path(
                g,
                i,
            ) by {
            if x < before.len() {
                let i = choose|i: int|
                    0 <= i < k - 1 && sm.fires(g, summaries, i) && (#[trigger] before[x])
                        == #[trigger] sm.path(g, i);
            }
        }
    }
}


proof fn lemma_way_back_nodes(sm: SearchModel, g: CfgModel, p: int)
    requires
        sm.states.len() == sm.parents.len(),
        forall|i: int|
            0 <= i < sm.states.len() ==> 0 <= (#[trigger] sm.states[i]).node < g.nodes.len(),
        g.nodes.len() <= usize::MAX,
    ensures
        forall|x: int|
            0 <= x < sm.way_back(g, p).len() ==> (#[trigger] sm.way_back(g, p)[x]) < g.nodes.len(),
    decreases p,
{
    if 0 <= p < sm.states.len() {
        if !(is_source(g.nodes[sm.states[p].node]) || !(0 <= sm.parents[p] < p)) {
            lemma_way_back_nodes(sm, g, sm.parents[p]);
            let rest = sm.way_back(g, sm.parents[p]);
        }
    }
}

/// Every reported path has a first node, and all its nodes are nodes of the
/// graph.
pub proof fn lemma_report_nodes(sm: SearchModel, g: CfgModel, summaries: Map<Seq<char>, FuncSummary>, k: int)
    requires
        sm.states.len() == sm.parents.len(),
        forall|i: int|
            0 <= i < sm.states.len() ==> 0 <= (#[trigger] sm.states[i]).node < g.nodes.len(),
        g.nodes.len() <= usize::MAX,
        0 <= k <= sm.states.len(),
    ensures
        forall|x: int|
            0 <= x < sm.report(g, summaries, k).len() ==> (#[trigger] sm.report(
                g,
                summaries,
                k,
            )[x]).len() > 0,
        forall|x: int, y: int|
            0 <= x < sm.report(g, summaries, k).len() && 0 <= y < sm.report(g, summaries, k)[x].len()
                ==> (#[trigger] sm.report(g, summaries, k)[x][y]) < g.nodes.len(),
    decreases k,
{
    if k > 0 {
        lemma_report_nodes(sm, g, summaries, k - 1);
        let before = sm.report(g, summaries, k - 1);
        lemma_way_back_nodes(sm, g, sm.parents[k - 1]);
    }
}

} // verus!
