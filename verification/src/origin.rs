//! Where the nodes of a graph come from: each stands for a statement of the
//! syntax tree and is labelled by the text of that statement, or it is a
//! synthetic node, which carries no label.

use crate::cfg::{
    body_index, block_index, branch_index, build_model, call_index, function_label, label_text,
    lower, lower_upto, node_model, node_text, synthetic_node, BuildError, BuildModel,
};
use crate::graph::{CfgModel, EdgeKind, NodeModel, StmtKind};
use crate::labels::{kind_of, label_of, Kind};
use crate::summary::FuncSummary;
use crate::syntax::SyntaxNode;
use vstd::prelude::*;

verus! {

/// `ast` is `tree` or lies within it.
pub open spec fn is_part(tree: SyntaxNode, ast: SyntaxNode) -> bool
    decreases tree,
{
    tree == ast || exists|i: int|
        0 <= i < tree.children@.len() && is_part(#[trigger] tree.children@[i], ast)
}

/// The node stands for no statement: it has a kind and a span and nothing
/// else, so it carries no label.
pub open spec fn is_synthetic(n: NodeModel) -> bool {
    n == synthetic_node(n.kind, n.span.0, n.span.1)
}

/// The node stands for the statement `ast`: it has the span of the
/// statement, what the statement defines and uses, and the label of the
/// statement's own text, which is the name of what it calls for a call and
/// the text of the node for anything else.
pub open spec fn stands_for(n: NodeModel, ast: SyntaxNode, lang: Seq<char>, code: Seq<u8>) -> bool {
    n == node_model(n.kind, ast, lang, code)
}

/// The node is synthetic or stands for a statement of the tree.
pub open spec fn of_tree(n: NodeModel, tree: SyntaxNode, lang: Seq<char>, code: Seq<u8>) -> bool {
    is_synthetic(n) || exists|ast: SyntaxNode|
        is_part(tree, ast) && #[trigger] stands_for(n, ast, lang, code)
}

/// Every node of the graph is synthetic or stands for a statement of the
/// tree.
pub open spec fn nodes_of_tree(g: CfgModel, tree: SyntaxNode, lang: Seq<char>, code: Seq<u8>) -> bool {
    forall|i: int| 0 <= i < g.nodes.len() ==> of_tree(#[trigger] g.nodes[i], tree, lang, code)
}

/// The exit node of every function that has a summary is a synthetic
/// return.
pub open spec fn exits_are_synthetic(g: CfgModel, summaries: Map<Seq<char>, FuncSummary>) -> bool {
    forall|name: Seq<char>| #[trigger]
        summaries.contains_key(name) ==> summaries[name].exit < g.nodes.len() && is_synthetic(
            g.nodes[summaries[name].exit as int],
        ) && g.nodes[summaries[name].exit as int].kind == StmtKind::Return
}

/// `s` has the nodes of `st`, each at its index, and behind them only nodes
/// that are synthetic or stand for statements of the tree; and the exits of
/// its functions are synthetic if those of `st` are.
pub open spec fn appended(
    st: BuildModel,
    s: BuildModel,
    tree: SyntaxNode,
    lang: Seq<char>,
    code: Seq<u8>,
) -> bool {
    &&& st.graph.nodes.len() <= s.graph.nodes.len()
    &&& forall|i: int|
        0 <= i < st.graph.nodes.len() ==> #[trigger] s.graph.nodes[i] == st.graph.nodes[i]
    &&& forall|i: int|
        st.graph.nodes.len() <= i < s.graph.nodes.len() ==> of_tree(
            #[trigger] s.graph.nodes[i],
            tree,
            lang,
            code,
        )
    &&& exits_are_synthetic(st.graph, st.summaries) ==> exits_are_synthetic(s.graph, s.summaries)
}

proof fn lemma_same_nodes(
    st: BuildModel,
    s: BuildModel,
    tree: SyntaxNode,
    lang: Seq<char>,
    code: Seq<u8>,
)
    requires
        s.graph.nodes == st.graph.nodes,
        s.summaries == st.summaries,
    ensures
        appended(st, s, tree, lang, code),
{
}

proof fn lemma_chain(
    a: BuildModel,
    b: BuildModel,
    c: BuildModel,
    tree: SyntaxNode,
    lang: Seq<char>,
    code: Seq<u8>,
)
    requires
        appended(a, b, tree, lang, code),
        appended(b, c, tree, lang, code),
    ensures
        appended(a, c, tree, lang, code),
{
    assert forall|i: int| 0 <= i < a.graph.nodes.len() implies #[trigger] c.graph.nodes[i]
        == a.graph.nodes[i] by {
        assert(b.graph.nodes[i] == a.graph.nodes[i]);
    }
    assert forall|i: int| a.graph.nodes.len() <= i < c.graph.nodes.len() implies of_tree(
        #[trigger] c.graph.nodes[i],
        tree,
        lang,
        code,
    ) by {
        if i < b.graph.nodes.len() {
            assert(c.graph.nodes[i] == b.graph.nodes[i]);
        }
    }
}

proof fn lemma_part_of_child(tree: SyntaxNode, i: int, n: NodeModel, lang: Seq<char>, code: Seq<u8>)
    requires
        0 <= i < tree.children@.len(),
        of_tree(n, tree.children@[i], lang, code),
    ensures
        of_tree(n, tree, lang, code),
{
    if !is_synthetic(n) {
        let ast = choose|ast: SyntaxNode|
            is_part(tree.children@[i], ast) && #[trigger] stands_for(n, ast, lang, code);
        assert(is_part(tree, ast));
    }
}

proof fn lemma_lift(
    a: BuildModel,
    b: BuildModel,
    tree: SyntaxNode,
    i: int,
    lang: Seq<char>,
    code: Seq<u8>,
)
    requires
        0 <= i < tree.children@.len(),
        appended(a, b, tree.children@[i], lang, code),
    ensures
        appended(a, b, tree, lang, code),
{
    assert forall|j: int| a.graph.nodes.len() <= j < b.graph.nodes.len() implies of_tree(
        #[trigger] b.graph.nodes[j],
        tree,
        lang,
        code,
    ) by {
        lemma_part_of_child(tree, i, b.graph.nodes[j], lang, code);
    }
}

proof fn lemma_connect_nodes(st: BuildModel, froms: Seq<usize>, to: usize, kind: EdgeKind, k: int)
    ensures
        st.connect_upto(froms, to, kind, k).graph.nodes == st.graph.nodes,
        st.connect_upto(froms, to, kind, k).summaries == st.summaries,
        st.failed is Some ==> st.connect_upto(froms, to, kind, k).failed is Some,
    decreases k,
{
    if 0 < k <= froms.len() {
        lemma_connect_nodes(st, froms, to, kind, k - 1);
    }
}

/// A node that is pushed and entered from a frontier.
proof fn lemma_step(
    st: BuildModel,
    info: NodeModel,
    preds: Seq<usize>,
    kind: EdgeKind,
    tree: SyntaxNode,
    lang: Seq<char>,
    code: Seq<u8>,
)
    requires
        of_tree(info, tree, lang, code),
    ensures
        appended(st, st.push(info).0, tree, lang, code),
        appended(st, st.push(info).0.connect_all(preds, st.push(info).1, kind), tree, lang, code),
{
    let (s1, n) = st.push(info);
    lemma_connect_nodes(s1, preds, n, kind, preds.len() as int);
    let s2 = s1.connect_all(preds, n, kind);
    assert(appended(st, s1, tree, lang, code));
    lemma_same_nodes(s1, s2, tree, lang, code);
    lemma_chain(st, s1, s2, tree, lang, code);
}

proof fn lemma_stands(kind: StmtKind, ast: SyntaxNode, lang: Seq<char>, code: Seq<u8>)
    ensures
        of_tree(node_model(kind, ast, lang, code), ast, lang, code),
{
    let n = node_model(kind, ast, lang, code);
    assert(is_part(ast, ast));
    assert(stands_for(n, ast, lang, code));
}

/// Lowering a subtree appends nodes of that subtree and leaves every other
/// node as it is.
pub proof fn lemma_lower_nodes(
    ast: SyntaxNode,
    preds: Seq<usize>,
    st: BuildModel,
    lang: Seq<char>,
    code: Seq<u8>,
)
    ensures
        appended(st, lower(ast, preds, st, lang, code).0, ast, lang, code),
    decreases ast, ast.children@.len() + 1,
{
    let k = kind_of(lang, ast.kind@);
    let n = ast.children@.len() as int;
    if st.failed is Some || k == Kind::Trivia {
    } else if k == Kind::SourceFile || k == Kind::Block {
        lemma_lower_upto_nodes(ast, ast.children@.len(), preds, st, lang, code);
    } else if k == Kind::Return || k == Kind::Break || k == Kind::Continue {
        let kind = if k == Kind::Return {
            StmtKind::Return
        } else if k == Kind::Break {
            StmtKind::Break
        } else {
            StmtKind::Continue
        };
        lemma_stands(kind, ast, lang, code);
        lemma_step(st, node_model(kind, ast, lang, code), preds, EdgeKind::Sequential, ast, lang, code);
    } else if k == Kind::If {
        lemma_lower_if_nodes(ast, preds, st, lang, code);
    } else if k == Kind::InfiniteLoop || k == Kind::While || k == Kind::For {
        let info = node_model(StmtKind::Loop, ast, lang, code);
        lemma_stands(StmtKind::Loop, ast, lang, code);
        lemma_step(st, info, preds, EdgeKind::Sequential, ast, lang, code);
        let (s1, header) = st.push(info);
        let s2 = s1.connect_all(preds, header, EdgeKind::Sequential);
        let b = body_index(ast, lang, k != Kind::InfiniteLoop);
        if 0 <= b < n {
            let (s3, body_exits) = lower(ast.children@[b], seq![header], s2, lang, code);
            lemma_lower_nodes(ast.children@[b], seq![header], s2, lang, code);
            lemma_lift(s2, s3, ast, b, lang, code);
            let s4 = s3.connect_all(body_exits, header, EdgeKind::Back);
            lemma_connect_nodes(s3, body_exits, header, EdgeKind::Back, body_exits.len() as int);
            lemma_same_nodes(s3, s4, ast, lang, code);
            lemma_chain(st, s2, s3, ast, lang, code);
            lemma_chain(st, s3, s4, ast, lang, code);
        } else {
            lemma_same_nodes(s2, s2.fail(BuildError::MissingBody), ast, lang, code);
            lemma_chain(st, s2, s2.fail(BuildError::MissingBody), ast, lang, code);
        }
    } else if k == Kind::Function {
        lemma_lower_function_nodes(ast, preds, st, lang, code);
    } else if k == Kind::CallWrapper {
        let inner = branch_index(ast.children@, lang, 0);
        if 0 <= inner < n {
            lemma_lower_nodes(ast.children@[inner], preds, st, lang, code);
            lemma_lift(st, lower(ast.children@[inner], preds, st, lang, code).0, ast, inner, lang, code);
        } else {
            let kind = if call_index(ast.children@, lang, 0) < n {
                StmtKind::Call
            } else {
                StmtKind::Sequential
            };
            lemma_stands(kind, ast, lang, code);
            lemma_step(
                st,
                node_model(kind, ast, lang, code),
                preds,
                EdgeKind::Sequential,
                ast,
                lang,
                code,
            );
        }
    } else {
        lemma_stands(StmtKind::Sequential, ast, lang, code);
        lemma_step(
            st,
            node_model(StmtKind::Sequential, ast, lang, code),
            preds,
            EdgeKind::Sequential,
            ast,
            lang,
            code,
        );
    }
}

proof fn lemma_lower_upto_nodes(
    ast: SyntaxNode,
    k: nat,
    preds: Seq<usize>,
    st: BuildModel,
    lang: Seq<char>,
    code: Seq<u8>,
)
    ensures
        appended(st, lower_upto(ast, k, preds, st, lang, code).0, ast, lang, code),
    decreases ast, k,
{
    if 0 < k <= ast.children@.len() {
        let (s, f) = lower_upto(ast, (k - 1) as nat, preds, st, lang, code);
        lemma_lower_upto_nodes(ast, (k - 1) as nat, preds, st, lang, code);
        lemma_lower_nodes(ast.children@[k - 1], f, s, lang, code);
        let s2 = lower(ast.children@[k - 1], f, s, lang, code).0;
        lemma_lift(s, s2, ast, k - 1, lang, code);
        lemma_chain(st, s, s2, ast, lang, code);
    }
}

proof fn lemma_lower_if_nodes(
    ast: SyntaxNode,
    preds: Seq<usize>,
    st: BuildModel,
    lang: Seq<char>,
    code: Seq<u8>,
)
    requires
        st.failed is None,
        kind_of(lang, ast.kind@) == Kind::If,
    ensures
        appended(st, lower(ast, preds, st, lang, code).0, ast, lang, code),
    decreases ast, ast.children@.len(),
{
    let n = ast.children@.len() as int;
    let info = node_model(StmtKind::If, ast, lang, code);
    lemma_stands(StmtKind::If, ast, lang, code);
    lemma_step(st, info, preds, EdgeKind::Sequential, ast, lang, code);
    let (s1, cond) = st.push(info);
    let s2 = s1.connect_all(preds, cond, EdgeKind::Sequential);
    let first = block_index(ast.children@, lang, 0);
    let second = block_index(ast.children@, lang, first + 1);
    if 0 <= first < n {
        let (s3, then_exits) = lower(ast.children@[first], seq![cond], s2, lang, code);
        lemma_lower_nodes(ast.children@[first], seq![cond], s2, lang, code);
        lemma_lift(s2, s3, ast, first, lang, code);
        let s4 = s3.relabel(s2.graph.edges.len() as int, EdgeKind::True);
        lemma_same_nodes(s3, s4, ast, lang, code);
        lemma_chain(st, s2, s3, ast, lang, code);
        lemma_chain(st, s3, s4, ast, lang, code);
        if 0 <= second < n {
            let (s5, else_exits) = lower(ast.children@[second], seq![cond], s4, lang, code);
            lemma_lower_nodes(ast.children@[second], seq![cond], s4, lang, code);
            lemma_lift(s4, s5, ast, second, lang, code);
            let s6 = s5.relabel(s4.graph.edges.len() as int, EdgeKind::False);
            lemma_same_nodes(s5, s6, ast, lang, code);
            lemma_chain(st, s4, s5, ast, lang, code);
            lemma_chain(st, s5, s6, ast, lang, code);
        } else if then_exits.len() > 0 {
            let s5 = s4.connect(cond, then_exits[0], EdgeKind::False);
            lemma_same_nodes(s4, s5, ast, lang, code);
            lemma_chain(st, s4, s5, ast, lang, code);
        }
    } else {
        let s3 = s2.connect(cond, cond, EdgeKind::False);
        lemma_same_nodes(s2, s3, ast, lang, code);
        lemma_chain(st, s2, s3, ast, lang, code);
    }
}

proof fn lemma_lower_function_nodes(
    ast: SyntaxNode,
    preds: Seq<usize>,
    st: BuildModel,
    lang: Seq<char>,
    code: Seq<u8>,
)
    requires
        st.failed is None,
        kind_of(lang, ast.kind@) == Kind::Function,
    ensures
        appended(st, lower(ast, preds, st, lang, code).0, ast, lang, code),
    decreases ast, ast.children@.len(),
{
    let n = ast.children@.len() as int;
    let name = match node_text(ast.field_child("name"@), code) {
        Some(t) => t,
        None => "<anon>"@,
    };
    let info = node_model(StmtKind::Sequential, ast, lang, code);
    lemma_stands(StmtKind::Sequential, ast, lang, code);
    lemma_step(st, info, preds, EdgeKind::Sequential, ast, lang, code);
    let (s1, entry) = st.push(info);
    let s2 = s1.connect_all(preds, entry, EdgeKind::Sequential);
    let b = body_index(ast, lang, false);
    if 0 <= b < n {
        let (s3, body_exits) = lower(ast.children@[b], seq![entry], s2, lang, code);
        lemma_lower_nodes(ast.children@[b], seq![entry], s2, lang, code);
        lemma_lift(s2, s3, ast, b, lang, code);
        lemma_chain(st, s2, s3, ast, lang, code);
        if s3.failed is None {
            let label = function_label(s3.graph.nodes, body_exits, ast.start_byte, ast.end_byte);
            let last = synthetic_node(StmtKind::Return, ast.start_byte, ast.end_byte);
            let (s4, exit) = s3.push(last);
            let s5 = s4.connect_all(body_exits, exit, EdgeKind::Sequential);
            lemma_step(s3, last, body_exits, EdgeKind::Sequential, ast, lang, code);
            let s6 = s5.record(name, FuncSummary { entry, exit, label });
            lemma_connect_nodes(s4, body_exits, exit, EdgeKind::Sequential, body_exits.len() as int);
            assert(appended(s5, s6, ast, lang, code)) by {
                if s5.failed is None && exits_are_synthetic(s5.graph, s5.summaries) {
                    assert(s5.graph.nodes[exit as int] == last);
                    assert forall|other: Seq<char>| #[trigger]
                        s6.summaries.contains_key(other) implies s6.summaries[other].exit
                        < s6.graph.nodes.len() && is_synthetic(
                        s6.graph.nodes[s6.summaries[other].exit as int],
                    ) && s6.graph.nodes[s6.summaries[other].exit as int].kind
                        == StmtKind::Return by {
                        if other != name {
                            assert(s5.summaries.contains_key(other));
                        }
                    }
                }
            }
            lemma_chain(st, s3, s5, ast, lang, code);
            lemma_chain(st, s5, s6, ast, lang, code);
        }
    } else {
        lemma_same_nodes(s2, s2.fail(BuildError::MissingBody), ast, lang, code);
        lemma_chain(st, s2, s2.fail(BuildError::MissingBody), ast, lang, code);
    }
}

/// Every node of the graph of a file is synthetic, and then carries no
/// label, or stands for a statement of the tree, and is then labelled by
/// that statement's own text. So a node that carries a label has the label
/// of the text of a statement of the tree. The exit of every function that
/// has a summary is a synthetic return.
pub proof fn lemma_nodes_stand_for_statements(tree: SyntaxNode, code: Seq<u8>, lang: Seq<char>)
    ensures
        nodes_of_tree(build_model(tree, code, lang).graph, tree, lang, code),
        exits_are_synthetic(
            build_model(tree, code, lang).graph,
            build_model(tree, code, lang).summaries,
        ),
        forall|i: int|
            0 <= i < build_model(tree, code, lang).graph.nodes.len() && (
            #[trigger] build_model(tree, code, lang).graph.nodes[i]).label is Some
                ==> exists|ast: SyntaxNode|
                is_part(tree, ast) && build_model(tree, code, lang).graph.nodes[i].label
                    == label_of(lang, #[trigger] label_text(ast, lang, code)),
{
    let first = synthetic_node(StmtKind::Entry, 0, 0);
    let last = synthetic_node(StmtKind::Exit, code.len() as usize, code.len() as usize);
    let s0 = BuildModel::start();
    let (s1, entry) = s0.push(first);
    let (s2, exit) = s1.push(last);
    let (s3, exits) = lower(tree, seq![entry], s2, lang, code);
    let s4 = s3.connect_all(exits, exit, EdgeKind::Sequential);
    lemma_step(s0, first, Seq::empty(), EdgeKind::Sequential, tree, lang, code);
    lemma_step(s1, last, Seq::empty(), EdgeKind::Sequential, tree, lang, code);
    lemma_lower_nodes(tree, seq![entry], s2, lang, code);
    lemma_connect_nodes(s3, exits, exit, EdgeKind::Sequential, exits.len() as int);
    lemma_same_nodes(s3, s4, tree, lang, code);
    lemma_chain(s0, s1, s2, tree, lang, code);
    lemma_chain(s0, s2, s3, tree, lang, code);
    lemma_chain(s0, s3, s4, tree, lang, code);
    assert(exits_are_synthetic(s0.graph, s0.summaries));
    let g = s4.graph;
    assert forall|i: int| 0 <= i < g.nodes.len() && (#[trigger] g.nodes[i]).label is Some implies exists|
        ast: SyntaxNode,
    |
        is_part(tree, ast) && g.nodes[i].label == label_of(
            lang,
            #[trigger] label_text(ast, lang, code),
        ) by {
        let ast = choose|ast: SyntaxNode|
            is_part(tree, ast) && #[trigger] stands_for(g.nodes[i], ast, lang, code);
        assert(g.nodes[i].label == label_of(lang, label_text(ast, lang, code)));
    }
}

} // verus!
