//! The graph builder: lowers a syntax tree into a control-flow graph whose
//! nodes carry labels, definitions and uses, and summarizes each function on
//! the way.

use crate::text::{opt_text, texts};
use crate::graph::{Cfg, CfgModel, EdgeKind, EdgeModel, NodeInfo, NodeModel, StmtKind, INDEX_LIMIT};
use crate::labels::{classify, kind_of, label_of, lookup, Cap, DataLabel, Kind};
use crate::lattice::{join_all, with_caps, Taint};
use crate::summary::{FuncSummaries, FuncSummary};
use crate::syntax::{field_index, SyntaxNode};
use crate::text::str_eq;
use vstd::prelude::*;
use vstd::string::StringExecFns;

verus! {

/// The text of an optional node.
pub open spec fn node_text(n: Option<SyntaxNode>, code: Seq<u8>) -> Option<Seq<char>> {
    match n {
        Some(c) => c.text(code),
        None => None,
    }
}

/// Whether the kind is a call form: a call of a function, of a method or of
/// a macro.
pub open spec fn is_call_kind(k: Kind) -> bool {
    k == Kind::CallFn || k == Kind::CallMethod || k == Kind::CallMacro
}

/// Whether the kind is a loop or a conditional.
pub open spec fn is_branch_kind(k: Kind) -> bool {
    k == Kind::InfiniteLoop || k == Kind::While || k == Kind::For || k == Kind::If
}

/// The canonical name of what a call node calls. A plain call is named by
/// its function, a macro call by its macro, and a method call by receiver
/// and method joined with `::`, or by whichever of the two it has.
pub open spec fn call_ident(c: SyntaxNode, k: Kind, code: Seq<u8>) -> Option<Seq<char>> {
    match k {
        Kind::CallFn => node_text(c.field_child("function"@), code),
        Kind::CallMethod => {
            let func = match c.field_child("method"@) {
                Some(m) => m.text(code),
                None => node_text(c.field_child("name"@), code),
            };
            let recv = node_text(c.field_child("object"@), code);
            match func {
                Some(f) => match recv {
                    Some(r) => Some(r + "::"@ + f),
                    None => Some(f),
                },
                None => recv,
            }
        },
        Kind::CallMacro => node_text(c.field_child("macro"@), code),
        _ => None,
    }
}

/// The first index at or after `i` whose node is a call form, or the length.
pub open spec fn call_index(children: Seq<SyntaxNode>, lang: Seq<char>, i: int) -> int
    decreases children.len() - i,
{
    if 0 <= i < children.len() && !is_call_kind(kind_of(lang, children[i].kind@)) {
        call_index(children, lang, i + 1)
    } else {
        i
    }
}

/// The first index at or after `i` whose node is a loop or a conditional, or
/// the length.
pub open spec fn branch_index(children: Seq<SyntaxNode>, lang: Seq<char>, i: int) -> int
    decreases children.len() - i,
{
    if 0 <= i < children.len() && !is_branch_kind(kind_of(lang, children[i].kind@)) {
        branch_index(children, lang, i + 1)
    } else {
        i
    }
}

/// The first index at or after `i` whose node is a block, or the length.
pub open spec fn block_index(children: Seq<SyntaxNode>, lang: Seq<char>, i: int) -> int
    decreases children.len() - i,
{
    if 0 <= i < children.len() && kind_of(lang, children[i].kind@) != Kind::Block {
        block_index(children, lang, i + 1)
    } else {
        i
    }
}

/// The canonical name of the call form among the children of `n`, where
/// exactly one of them is a call form.
pub open spec fn inner_call_name(n: SyntaxNode, lang: Seq<char>, code: Seq<u8>) -> Option<
    Seq<char>,
> {
    let i = call_index(n.children@, lang, 0);
    if 0 <= i < n.children@.len() && call_index(n.children@, lang, i + 1) >= n.children@.len() {
        call_ident(n.children@[i], kind_of(lang, n.children@[i].kind@), code)
    } else {
        None
    }
}

/// The first of the names, if there is one.
pub open spec fn first_of(s: Seq<Seq<char>>) -> Option<Seq<char>> {
    if s.len() > 0 {
        Some(s[0])
    } else {
        None
    }
}

/// The last of the names, if there is one.
pub open spec fn last_of(s: Seq<Seq<char>>) -> Option<Seq<char>> {
    if s.len() > 0 {
        Some(s.last())
    } else {
        None
    }
}

/// The identifiers of an optional node.
pub open spec fn idents_of(n: Option<SyntaxNode>, code: Seq<u8>) -> Seq<Seq<char>> {
    match n {
        Some(c) => c.idents(code),
        None => Seq::empty(),
    }
}

/// What a statement defines and what it uses. A declaration with an
/// initializer defines the first identifier of its pattern and uses the
/// identifiers of its value. An assignment defines the last identifier of
/// its left side and uses the identifiers of its right side. Anything else
/// defines nothing and uses every identifier in it.
pub open spec fn defines_uses(ast: SyntaxNode, code: Seq<u8>) -> (Option<Seq<char>>, Seq<Seq<char>>) {
    if ast.kind@ == "let_declaration"@ {
        (
            first_of(idents_of(ast.field_child("pattern"@), code)),
            idents_of(ast.field_child("value"@), code),
        )
    } else if ast.kind@ == "assignment_expression"@ {
        (
            last_of(idents_of(ast.field_child("left"@), code)),
            idents_of(ast.field_child("right"@), code),
        )
    } else {
        (None, ast.idents(code))
    }
}

/// The text, or the empty text where there is none.
pub open spec fn or_empty(t: Option<Seq<char>>) -> Seq<char> {
    match t {
        Some(s) => s,
        None => Seq::empty(),
    }
}

/// The text by which a statement is labelled: the canonical name of a call
/// form, else the text of the node; and for a statement that wraps exactly
/// one call, the canonical name of that call, where it has one.
pub open spec fn label_text(ast: SyntaxNode, lang: Seq<char>, code: Seq<u8>) -> Seq<char> {
    let k = kind_of(lang, ast.kind@);
    let primary = if is_call_kind(k) {
        or_empty(call_ident(ast, k, code))
    } else {
        or_empty(ast.text(code))
    };
    if k == Kind::CallWrapper {
        match inner_call_name(ast, lang, code) {
            Some(t) => t,
            None => primary,
        }
    } else {
        primary
    }
}

/// The graph node that stands for the statement `ast` with kind `kind`.
pub open spec fn node_model(kind: StmtKind, ast: SyntaxNode, lang: Seq<char>, code: Seq<u8>) -> NodeModel {
    let text = label_text(ast, lang, code);
    NodeModel {
        kind,
        span: (ast.start_byte, ast.end_byte),
        label: label_of(lang, text),
        defines: defines_uses(ast, code).0,
        uses: defines_uses(ast, code).1,
        callee: if kind == StmtKind::Call {
            Some(text)
        } else {
            None
        },
    }
}

/// A node that stands for no statement of the file.
pub open spec fn synthetic_node(kind: StmtKind, start: usize, end: usize) -> NodeModel {
    NodeModel {
        kind,
        span: (start, end),
        label: None,
        defines: None,
        uses: Seq::empty(),
        callee: None,
    }
}

fn text_of_child(c: Option<&SyntaxNode>, code: &[u8]) -> (r: Option<String>)
    ensures
        opt_text(r) == node_text(
            match c {
                Some(n) => Some(*n),
                None => None,
            },
            code@,
        ),
{
    match c {
        Some(n) => n.text_of(code),
        None => None,
    }
}

fn call_name(c: &SyntaxNode, k: Kind, code: &[u8]) -> (r: Option<String>)
    ensures
        opt_text(r) == call_ident(*c, k, code@),
{
    match k {
        Kind::CallFn => text_of_child(c.child_by_field_name("function"), code),
        Kind::CallMethod => {
            let func = match c.child_by_field_name("method") {
                Some(m) => m.text_of(code),
                None => text_of_child(c.child_by_field_name("name"), code),
            };
            let recv = text_of_child(c.child_by_field_name("object"), code);
            match func {
                Some(f) => match recv {
                    Some(r) => Some(r.concat("::").concat(f.as_str())),
                    None => Some(f),
                },
                None => recv,
            }
        },
        Kind::CallMacro => text_of_child(c.child_by_field_name("macro"), code),
        _ => None,
    }
}

fn is_call(k: Kind) -> (r: bool)
    ensures
        r == is_call_kind(k),
{
    match k {
        Kind::CallFn | Kind::CallMethod | Kind::CallMacro => true,
        _ => false,
    }
}

fn is_branch(k: Kind) -> (r: bool)
    ensures
        r == is_branch_kind(k),
{
    match k {
        Kind::InfiniteLoop | Kind::While | Kind::For | Kind::If => true,
        _ => false,
    }
}

/// The index of the first child at or after `from` that is a call form.
fn find_call(n: &SyntaxNode, lang: &str, from: usize) -> (i: usize)
    requires
        from <= n.children@.len(),
    ensures
        i == call_index(n.children@, lang@, from as int),
        from <= i <= n.children@.len(),
{
    let mut i: usize = from;
    while i < n.children.len() && !is_call(lookup(lang, n.children[i].kind.as_str()))
        invariant
            from <= i <= n.children@.len(),
            call_index(n.children@, lang@, from as int) == call_index(
                n.children@,
                lang@,
                i as int,
            ),
        decreases n.children.len() - i,
    {
        i += 1;
    }
    i
}

/// The index of the first child at or after `from` that is a loop or a
/// conditional.
pub(crate) fn find_branch(n: &SyntaxNode, lang: &str, from: usize) -> (i: usize)
    requires
        from <= n.children@.len(),
    ensures
        i == branch_index(n.children@, lang@, from as int),
        from <= i <= n.children@.len(),
{
    let mut i: usize = from;
    while i < n.children.len() && !is_branch(lookup(lang, n.children[i].kind.as_str()))
        invariant
            from <= i <= n.children@.len(),
            branch_index(n.children@, lang@, from as int) == branch_index(
                n.children@,
                lang@,
                i as int,
            ),
        decreases n.children.len() - i,
    {
        i += 1;
    }
    i
}

/// The index of the first child at or after `from` that is a block.
pub(crate) fn find_block(n: &SyntaxNode, lang: &str, from: usize) -> (i: usize)
    requires
        from <= n.children@.len(),
    ensures
        i == block_index(n.children@, lang@, from as int),
        from <= i <= n.children@.len(),
{
    let mut i: usize = from;
    while i < n.children.len() && lookup(lang, n.children[i].kind.as_str()) != Kind::Block
        invariant
            from <= i <= n.children@.len(),
            block_index(n.children@, lang@, from as int) == block_index(
                n.children@,
                lang@,
                i as int,
            ),
        decreases n.children.len() - i,
    {
        i += 1;
    }
    i
}

/// The canonical name of the call form among the children of `n`, where
/// exactly one of them is a call form.
fn first_call_ident(n: &SyntaxNode, lang: &str, code: &[u8]) -> (r: Option<String>)
    ensures
        opt_text(r) == inner_call_name(*n, lang@, code@),
{
    let i = find_call(n, lang, 0);
    if i < n.children.len() && find_call(n, lang, i + 1) >= n.children.len() {
        call_name(&n.children[i], lookup(lang, n.children[i].kind.as_str()), code)
    } else {
        None
    }
}

fn idents_of_child(c: Option<&SyntaxNode>, code: &[u8]) -> (r: Vec<String>)
    ensures
        texts(r@) == idents_of(
            match c {
                Some(n) => Some(*n),
                None => None,
            },
            code@,
        ),
{
    let mut out: Vec<String> = Vec::new();
    match c {
        Some(n) => {
            n.collect_idents(code, &mut out);
        },
        None => {},
    }
    out
}

/// What the statement `ast` defines and what it uses.
fn def_use(ast: &SyntaxNode, code: &[u8]) -> (r: (Option<String>, Vec<String>))
    ensures
        opt_text(r.0) == defines_uses(*ast, code@).0,
        texts(r.1@) == defines_uses(*ast, code@).1,
{
    if str_eq(ast.kind.as_str(), "let_declaration") {
        let tmp = idents_of_child(ast.child_by_field_name("pattern"), code);
        let defs = if tmp.len() > 0 {
            Some(tmp[0].clone())
        } else {
            None
        };
        let uses = idents_of_child(ast.child_by_field_name("value"), code);
        (defs, uses)
    } else if str_eq(ast.kind.as_str(), "assignment_expression") {
        let mut tmp = idents_of_child(ast.child_by_field_name("left"), code);
        let defs = tmp.pop();
        let uses = idents_of_child(ast.child_by_field_name("right"), code);
        (defs, uses)
    } else {
        let mut uses: Vec<String> = Vec::new();
        ast.collect_idents(code, &mut uses);
        (None, uses)
    }
}

fn text_or_empty(t: Option<String>) -> (r: String)
    ensures
        r@ == or_empty(opt_text(t)),
{
    match t {
        Some(s) => s,
        None => String::new(),
    }
}

/// The graph node that stands for the statement `ast` with kind `kind`.
fn make_node(kind: StmtKind, ast: &SyntaxNode, lang: &str, code: &[u8]) -> (r: NodeInfo)
    ensures
        r@ == node_model(kind, *ast, lang@, code@),
{
    let k = lookup(lang, ast.kind.as_str());
    let primary = if is_call(k) {
        text_or_empty(call_name(ast, k, code))
    } else {
        text_or_empty(ast.text_of(code))
    };
    let text = if k == Kind::CallWrapper {
        match first_call_ident(ast, lang, code) {
            Some(t) => t,
            None => primary,
        }
    } else {
        primary
    };
    let label = classify(lang, text.as_str());
    let (defines, uses) = def_use(ast, code);
    let callee = if kind == StmtKind::Call {
        Some(text)
    } else {
        None
    };
    NodeInfo { kind, span: (ast.start_byte, ast.end_byte), label, defines, uses, callee }
}

fn make_synthetic(kind: StmtKind, start: usize, end: usize) -> (r: NodeInfo)
    ensures
        r@ == synthetic_node(kind, start, end),
{
    let r = NodeInfo {
        kind,
        span: (start, end),
        label: None,
        defines: None,
        uses: Vec::new(),
        callee: None,
    };
    assert(r@.uses =~= Seq::<Seq<char>>::empty());
    r
}


/// Why a tree could not be lowered.
#[derive(Debug, Clone, Copy, PartialEq, Eq, Structural)]
pub enum BuildError {
    /// The graph would outgrow the number of nodes or edges that it can index.
    TooLarge,
    /// A loop or a function has no body.
    MissingBody,
}

/// The state of a build as mathematical data. Once `failed` is set, nothing
/// more is added.
pub struct BuildModel {
    pub graph: CfgModel,
    pub summaries: Map<Seq<char>, FuncSummary>,
    pub failed: Option<BuildError>,
}

impl BuildModel {
    /// The state of a build before anything is added.
    pub open spec fn start() -> BuildModel {
        BuildModel {
            graph: CfgModel { nodes: Seq::empty(), edges: Seq::empty() },
            summaries: Map::empty(),
            failed: None,
        }
    }

    /// The build fails with `e`, unless it has failed before.
    pub open spec fn fail(self, e: BuildError) -> BuildModel {
        if self.failed is Some {
            self
        } else {
            BuildModel { failed: Some(e), ..self }
        }
    }

    /// Adds a node; gives the new state and the index of the node.
    pub open spec fn push(self, info: NodeModel) -> (BuildModel, usize) {
        if self.failed is Some {
            (self, 0)
        } else if self.graph.nodes.len() >= INDEX_LIMIT {
            (self.fail(BuildError::TooLarge), 0)
        } else {
            (
                BuildModel {
                    graph: CfgModel {
                        nodes: self.graph.nodes.push(info),
                        edges: self.graph.edges,
                    },
                    ..self
                },
                self.graph.nodes.len() as usize,
            )
        }
    }

    /// Adds an edge from `a` to `b`.
    pub open spec fn connect(self, a: usize, b: usize, kind: EdgeKind) -> BuildModel {
        if self.failed is Some {
            self
        } else if self.graph.edges.len() >= INDEX_LIMIT {
            self.fail(BuildError::TooLarge)
        } else {
            BuildModel {
                graph: CfgModel {
                    nodes: self.graph.nodes,
                    edges: self.graph.edges.push(
                        EdgeModel { src: a as int, dst: b as int, kind },
                    ),
                },
                ..self
            }
        }
    }

    /// Adds an edge to `to` from each of the first `k` of `froms`.
    pub open spec fn connect_upto(self, froms: Seq<usize>, to: usize, kind: EdgeKind, k: int) -> BuildModel
        decreases k,
    {
        if k <= 0 || k > froms.len() {
            self
        } else {
            self.connect_upto(froms, to, kind, k - 1).connect(froms[k - 1], to, kind)
        }
    }

    /// Adds an edge to `to` from each of `froms`, in their order.
    pub open spec fn connect_all(self, froms: Seq<usize>, to: usize, kind: EdgeKind) -> BuildModel {
        self.connect_upto(froms, to, kind, froms.len() as int)
    }

    /// Gives the edge at index `at` the kind `kind`, if the build has not
    /// failed and has such an edge.
    pub open spec fn relabel(self, at: int, kind: EdgeKind) -> BuildModel {
        if self.failed is None && 0 <= at < self.graph.edges.len() {
            BuildModel {
                graph: CfgModel {
                    nodes: self.graph.nodes,
                    edges: self.graph.edges.update(
                        at,
                        EdgeModel {
                            src: self.graph.edges[at].src,
                            dst: self.graph.edges[at].dst,
                            kind,
                        },
                    ),
                },
                ..self
            }
        } else {
            self
        }
    }

    /// Records a summary, unless the build has failed.
    pub open spec fn record(self, name: Seq<char>, summary: FuncSummary) -> BuildModel {
        if self.failed is Some {
            self
        } else {
            BuildModel { summaries: self.summaries.insert(name, summary), ..self }
        }
    }

    /// Every index of `frontier` is a node, unless the build has failed.
    pub open spec fn holds(self, frontier: Seq<usize>) -> bool {
        self.failed is None ==> forall|i: int|
            0 <= i < frontier.len() ==> #[trigger] frontier[i] < self.graph.nodes.len()
    }

    /// `later` has every node of `self` at its index and every edge index of
    /// `self`, unless it has failed.
    pub open spec fn grows_to(self, later: BuildModel) -> bool {
        later.failed is None ==> {
            &&& self.failed is None
            &&& self.graph.nodes.len() <= later.graph.nodes.len()
            &&& self.graph.edges.len() <= later.graph.edges.len()
            &&& forall|i: int|
                0 <= i < self.graph.nodes.len() ==> later.graph.nodes[i]
                    == #[trigger] self.graph.nodes[i]
        }
    }
}

/// What the sweep over a function has gathered: the capabilities of each
/// variable, and the capabilities that the function introduces, clears and
/// consumes.
pub struct SweepModel {
    pub taint: Map<Seq<char>, Cap>,
    pub src: Cap,
    pub sani: Cap,
    pub sink: Cap,
}

/// Whether the span of the node lies within `start..end`.
pub open spec fn in_span(n: NodeModel, start: usize, end: usize) -> bool {
    start <= n.span.0 && n.span.1 <= end
}

/// The capabilities that leave a node: those of the variables it uses, with
/// a source label added and a sanitizer label taken away.
pub open spec fn out_caps(n: NodeModel, taint: Map<Seq<char>, Cap>) -> Cap {
    let incoming = join_all(taint, n.uses);
    match n.label {
        Some(DataLabel::Source(b)) => incoming.spec_union(b),
        Some(DataLabel::Sanitizer(b)) => incoming.spec_difference(b),
        _ => incoming,
    }
}

/// The capabilities that a source label introduces; none for any other.
pub open spec fn source_bits(l: Option<DataLabel>) -> Cap {
    match l {
        Some(DataLabel::Source(b)) => b,
        _ => Cap { raw: 0 },
    }
}

/// The capabilities that a sanitizer label clears; none for any other.
pub open spec fn sanitizer_bits(l: Option<DataLabel>) -> Cap {
    match l {
        Some(DataLabel::Sanitizer(b)) => b,
        _ => Cap { raw: 0 },
    }
}

/// The capabilities that a sink label consumes; none for any other.
pub open spec fn sink_bits(l: Option<DataLabel>) -> Cap {
    match l {
        Some(DataLabel::Sink(b)) => b,
        _ => Cap { raw: 0 },
    }
}

/// The sweep takes in one node. What leaves a return statement, and what
/// leaves a node from which control falls out of the body, counts as
/// introduced by the function.
pub open spec fn sweep_step(s: SweepModel, n: NodeModel, falls_out: bool) -> SweepModel {
    let out = out_caps(n, s.taint);
    let returned = if n.kind == StmtKind::Return || falls_out {
        out
    } else {
        Cap { raw: 0 }
    };
    SweepModel {
        taint: match n.defines {
            Some(d) => with_caps(s.taint, d, out),
            None => s.taint,
        },
        src: s.src.spec_union(source_bits(n.label)).spec_union(returned),
        sani: s.sani.spec_union(sanitizer_bits(n.label)),
        sink: s.sink.spec_union(sink_bits(n.label)),
    }
}

/// The sweep over the first `k` nodes of the graph, of which those count
/// whose span lies within `start..end`.
pub open spec fn sweep_upto(
    nodes: Seq<NodeModel>,
    exits: Seq<usize>,
    start: usize,
    end: usize,
    k: int,
) -> SweepModel
    decreases k,
{
    if k <= 0 || k > nodes.len() {
        SweepModel {
            taint: Map::empty(),
            src: Cap { raw: 0 },
            sani: Cap { raw: 0 },
            sink: Cap { raw: 0 },
        }
    } else {
        let s = sweep_upto(nodes, exits, start, end, k - 1);
        if in_span(nodes[k - 1], start, end) {
            sweep_step(s, nodes[k - 1], exits.contains((k - 1) as usize))
        } else {
            s
        }
    }
}

/// The label that stands for a function: its sinks before its sanitizers
/// before its sources.
pub open spec fn summary_label(s: SweepModel) -> Option<DataLabel> {
    if s.sink.raw != 0 {
        Some(DataLabel::Sink(s.sink))
    } else if s.sani.raw != 0 {
        Some(DataLabel::Sanitizer(s.sani))
    } else if s.src.raw != 0 {
        Some(DataLabel::Source(s.src))
    } else {
        None
    }
}

/// The label of the function that spans `start..end`, from the nodes of
/// the graph as it stands.
pub open spec fn function_label(nodes: Seq<NodeModel>, exits: Seq<usize>, start: usize, end: usize) -> Option<DataLabel> {
    summary_label(sweep_upto(nodes, exits, start, end, nodes.len() as int))
}

/// The index of the body of a loop or a function: the child held under
/// `body`, and where `or_block` allows it, failing that, the first block.
/// Without a body it is the number of children.
pub open spec fn body_index(ast: SyntaxNode, lang: Seq<char>, or_block: bool) -> int {
    let b = field_index(ast.children@, "body"@, 0);
    if b < ast.children@.len() || !or_block {
        b
    } else {
        block_index(ast.children@, lang, 0)
    }
}

/// Lowers the subtree `ast` behind the frontier `preds`: gives the state
/// after it and the frontier that awaits a successor.
pub open spec fn lower(
    ast: SyntaxNode,
    preds: Seq<usize>,
    st: BuildModel,
    lang: Seq<char>,
    code: Seq<u8>,
) -> (BuildModel, Seq<usize>)
    decreases ast, ast.children@.len() + 1,
{
    let k = kind_of(lang, ast.kind@);
    if st.failed is Some {
        (st, Seq::empty())
    } else if k == Kind::Trivia {
        (st, preds)
    } else if k == Kind::SourceFile || k == Kind::Block {
        lower_upto(ast, ast.children@.len(), preds, st, lang, code)
    } else if k == Kind::Return || k == Kind::Break || k == Kind::Continue {
        let kind = if k == Kind::Return {
            StmtKind::Return
        } else if k == Kind::Break {
            StmtKind::Break
        } else {
            StmtKind::Continue
        };
        let (s1, n) = st.push(node_model(kind, ast, lang, code));
        (s1.connect_all(preds, n, EdgeKind::Sequential), Seq::empty())
    } else if k == Kind::If {
        let (s1, cond) = st.push(node_model(StmtKind::If, ast, lang, code));
        let s2 = s1.connect_all(preds, cond, EdgeKind::Sequential);
        let first = block_index(ast.children@, lang, 0);
        let second = block_index(ast.children@, lang, first + 1);
        if 0 <= first < ast.children@.len() {
            let (s3, then_exits) = lower(ast.children@[first], seq![cond], s2, lang, code);
            let s4 = s3.relabel(s2.graph.edges.len() as int, EdgeKind::True);
            if 0 <= second < ast.children@.len() {
                let (s5, else_exits) = lower(ast.children@[second], seq![cond], s4, lang, code);
                let s6 = s5.relabel(s4.graph.edges.len() as int, EdgeKind::False);
                (s6, then_exits + else_exits)
            } else if then_exits.len() > 0 {
                (s4.connect(cond, then_exits[0], EdgeKind::False), then_exits + then_exits)
            } else {
                (s4, then_exits + then_exits)
            }
        } else {
            (s2.connect(cond, cond, EdgeKind::False), seq![cond, cond])
        }
    } else if k == Kind::InfiniteLoop || k == Kind::While || k == Kind::For {
        let (s1, header) = st.push(node_model(StmtKind::Loop, ast, lang, code));
        let s2 = s1.connect_all(preds, header, EdgeKind::Sequential);
        let b = body_index(ast, lang, k != Kind::InfiniteLoop);
        if 0 <= b < ast.children@.len() {
            let (s3, body_exits) = lower(ast.children@[b], seq![header], s2, lang, code);
            let s4 = s3.connect_all(body_exits, header, EdgeKind::Back);
            if k == Kind::InfiniteLoop {
                (s4, body_exits.push(header))
            } else {
                (s4, seq![header])
            }
        } else {
            (s2.fail(BuildError::MissingBody), Seq::empty())
        }
    } else if k == Kind::Function {
        let name = match node_text(ast.field_child("name"@), code) {
            Some(t) => t,
            None => "<anon>"@,
        };
        let (s1, entry) = st.push(node_model(StmtKind::Sequential, ast, lang, code));
        let s2 = s1.connect_all(preds, entry, EdgeKind::Sequential);
        let b = body_index(ast, lang, false);
        if 0 <= b < ast.children@.len() {
            let (s3, body_exits) = lower(ast.children@[b], seq![entry], s2, lang, code);
            if s3.failed is Some {
                (s3, Seq::empty())
            } else {
                let label = function_label(
                    s3.graph.nodes,
                    body_exits,
                    ast.start_byte,
                    ast.end_byte,
                );
                let (s4, exit) = s3.push(
                    synthetic_node(StmtKind::Return, ast.start_byte, ast.end_byte),
                );
                let s5 = s4.connect_all(body_exits, exit, EdgeKind::Sequential);
                (s5.record(name, FuncSummary { entry, exit, label }), seq![exit])
            }
        } else {
            (s2.fail(BuildError::MissingBody), Seq::empty())
        }
    } else if k == Kind::CallWrapper {
        let inner = branch_index(ast.children@, lang, 0);
        if 0 <= inner < ast.children@.len() {
            lower(ast.children@[inner], preds, st, lang, code)
        } else {
            let kind = if call_index(ast.children@, lang, 0) < ast.children@.len() {
                StmtKind::Call
            } else {
                StmtKind::Sequential
            };
            let (s1, n) = st.push(node_model(kind, ast, lang, code));
            (s1.connect_all(preds, n, EdgeKind::Sequential), seq![n])
        }
    } else {
        let (s1, n) = st.push(node_model(StmtKind::Sequential, ast, lang, code));
        (s1.connect_all(preds, n, EdgeKind::Sequential), seq![n])
    }
}

/// Lowers the first `k` children of `ast` one after the other, the frontier
/// of each being handed to the next.
pub open spec fn lower_upto(
    ast: SyntaxNode,
    k: nat,
    preds: Seq<usize>,
    st: BuildModel,
    lang: Seq<char>,
    code: Seq<u8>,
) -> (BuildModel, Seq<usize>)
    decreases ast, k,
{
    if k == 0 || k > ast.children@.len() {
        (st, preds)
    } else {
        let (s, f) = lower_upto(ast, (k - 1) as nat, preds, st, lang, code);
        lower(ast.children@[k - 1], f, s, lang, code)
    }
}

/// What building the graph of a file gives: the state after the synthetic
/// entry and exit, the lowered tree, and the edges from what falls out of
/// the tree into the exit.
pub open spec fn build_model(tree: SyntaxNode, code: Seq<u8>, lang: Seq<char>) -> BuildModel {
    let (s1, entry) = BuildModel::start().push(synthetic_node(StmtKind::Entry, 0, 0));
    let (s2, exit) = s1.push(
        synthetic_node(StmtKind::Exit, code.len() as usize, code.len() as usize),
    );
    let (s3, exits) = lower(tree, seq![entry], s2, lang, code);
    s3.connect_all(exits, exit, EdgeKind::Sequential)
}


fn single(x: usize) -> (r: Vec<usize>)
    ensures
        r@ == seq![x],
{
    let mut r: Vec<usize> = Vec::new();
    r.push(x);
    r
}

fn joined(a: &Vec<usize>, b: &Vec<usize>) -> (r: Vec<usize>)
    ensures
        r@ == a@ + b@,
{
    let mut r: Vec<usize> = Vec::new();
    let mut i: usize = 0;
    while i < a.len()
        invariant
            i <= a.len(),
            r@ == a@.take(i as int),
        decreases a.len() - i,
    {
        r.push(a[i]);
        i += 1;
    }
    let mut j: usize = 0;
    while j < b.len()
        invariant
            j <= b.len(),
            r@ == a@ + b@.take(j as int),
        decreases b.len() - j,
    {
        r.push(b[j]);
        j += 1;
    }
    r
}

fn has_index(v: &Vec<usize>, x: usize) -> (r: bool)
    ensures
        r == v@.contains(x),
{
    let mut i: usize = 0;
    while i < v.len()
        invariant
            i <= v.len(),
            forall|j: int| 0 <= j < i ==> v@[j] != x,
        decreases v.len() - i,
    {
        if v[i] == x {
            return true;
        }
        i += 1;
    }
    false
}

/// The index of the body of a loop or a function.
pub(crate) fn find_body(ast: &SyntaxNode, lang: &str, or_block: bool) -> (b: usize)
    ensures
        b == body_index(*ast, lang@, or_block),
        b <= ast.children@.len(),
{
    let b = ast.field_position("body");
    if b < ast.children.len() || !or_block {
        b
    } else {
        find_block(ast, lang, 0)
    }
}

struct Builder {
    graph: Cfg,
    summaries: FuncSummaries,
    failed: Option<BuildError>,
}

impl View for Builder {
    type V = BuildModel;

    closed spec fn view(&self) -> BuildModel {
        BuildModel { graph: self.graph@, summaries: self.summaries@, failed: self.failed }
    }
}

impl Builder {
    spec fn wf(&self) -> bool {
        self.graph.wf()
    }

    fn fail(&mut self, e: BuildError)
        requires
            old(self).wf(),
        ensures
            final(self).wf(),
            final(self)@ == old(self)@.fail(e),
    {
        if self.failed.is_none() {
            self.failed = Some(e);
        }
    }

    /// Adds a node and returns its index.
    fn push_node(&mut self, info: NodeInfo) -> (i: usize)
        requires
            old(self).wf(),
        ensures
            final(self).wf(),
            (final(self)@, i) == old(self)@.push(info@),
            old(self)@.grows_to(final(self)@),
            final(self)@.failed is None ==> i < final(self)@.graph.nodes.len(),
    {
        if self.failed.is_some() {
            0
        } else if self.graph.node_count() >= INDEX_LIMIT {
            self.failed = Some(BuildError::TooLarge);
            0
        } else {
            self.graph.add_node(info)
        }
    }

    fn connect(&mut self, a: usize, b: usize, kind: EdgeKind)
        requires
            old(self).wf(),
            old(self)@.failed is None ==> a < old(self)@.graph.nodes.len() && b < old(
                self,
            )@.graph.nodes.len(),
        ensures
            final(self).wf(),
            final(self)@ == old(self)@.connect(a, b, kind),
            old(self)@.grows_to(final(self)@),
            final(self)@.graph.nodes == old(self)@.graph.nodes,
    {
        if self.failed.is_some() {
        } else if self.graph.edge_count() >= INDEX_LIMIT {
            self.failed = Some(BuildError::TooLarge);
        } else {
            self.graph.add_edge(a, b, kind);
        }
    }

    /// Adds the same kind of edge from every node of `froms` to `to`.
    fn connect_all(&mut self, froms: &Vec<usize>, to: usize, kind: EdgeKind)
        requires
            old(self).wf(),
            old(self)@.holds(froms@),
            old(self)@.failed is None ==> to < old(self)@.graph.nodes.len(),
        ensures
            final(self).wf(),
            final(self)@ == old(self)@.connect_all(froms@, to, kind),
            old(self)@.grows_to(final(self)@),
            final(self)@.graph.nodes == old(self)@.graph.nodes,
    {
        let mut i: usize = 0;
        while i < froms.len()
            invariant
                i <= froms.len(),
                self.wf(),
                old(self)@.holds(froms@),
                old(self)@.failed is None ==> to < old(self)@.graph.nodes.len(),
                self@ == old(self)@.connect_upto(froms@, to, kind, i as int),
                old(self)@.grows_to(self@),
                self@.graph.nodes == old(self)@.graph.nodes,
            decreases froms.len() - i,
        {
            self.connect(froms[i], to, kind);
            i += 1;
        }
    }

    fn relabel(&mut self, at: usize, kind: EdgeKind)
        requires
            old(self).wf(),
        ensures
            final(self).wf(),
            final(self)@ == old(self)@.relabel(at as int, kind),
            final(self)@.graph.nodes == old(self)@.graph.nodes,
            final(self)@.graph.edges.len() == old(self)@.graph.edges.len(),
            final(self)@.failed == old(self)@.failed,
    {
        if self.failed.is_none() && at < self.graph.edge_count() {
            self.graph.set_edge_kind(at, kind);
        }
    }

    fn record(&mut self, name: String, summary: FuncSummary)
        requires
            old(self).wf(),
        ensures
            final(self).wf(),
            final(self)@ == old(self)@.record(name@, summary),
    {
        if self.failed.is_none() {
            self.summaries.insert(name, summary);
        }
    }

    /// Lowers a conditional.
    fn lower_if(&mut self, ast: &SyntaxNode, preds: &Vec<usize>, lang: &str, code: &[u8]) -> (r: Vec<
        usize,
    >)
        requires
            old(self).wf(),
            old(self)@.holds(preds@),
            old(self)@.failed is None,
            kind_of(lang@, ast.kind@) == Kind::If,
        ensures
            final(self).wf(),
            (final(self)@, r@) == lower(*ast, preds@, old(self)@, lang@, code@),
            final(self)@.holds(r@),
            old(self)@.grows_to(final(self)@),
        decreases ast, 0nat,
    {
        let cond = self.push_node(make_node(StmtKind::If, ast, lang, code));
        self.connect_all(preds, cond, EdgeKind::Sequential);
        let first = find_block(ast, lang, 0);
        if first < ast.children.len() {
            let second = find_block(ast, lang, first + 1);
            let from = single(cond);
            let n0 = self.graph.edge_count();
            let then_exits = self.build_sub(&ast.children[first], &from, lang, code);
            self.relabel(n0, EdgeKind::True);
            if second < ast.children.len() {
                let n1 = self.graph.edge_count();
                let else_exits = self.build_sub(&ast.children[second], &from, lang, code);
                self.relabel(n1, EdgeKind::False);
                joined(&then_exits, &else_exits)
            } else {
                if then_exits.len() > 0 {
                    self.connect(cond, then_exits[0], EdgeKind::False);
                }
                joined(&then_exits, &then_exits)
            }
        } else {
            self.connect(cond, cond, EdgeKind::False);
            let from = single(cond);
            let r = joined(&from, &from);
            r
        }
    }

    /// Lowers a loop.
    fn lower_loop(&mut self, ast: &SyntaxNode, preds: &Vec<usize>, lang: &str, code: &[u8]) -> (r:
        Vec<usize>)
        requires
            old(self).wf(),
            old(self)@.holds(preds@),
            old(self)@.failed is None,
            kind_of(lang@, ast.kind@) == Kind::InfiniteLoop || kind_of(lang@, ast.kind@)
                == Kind::While || kind_of(lang@, ast.kind@) == Kind::For,
        ensures
            final(self).wf(),
            (final(self)@, r@) == lower(*ast, preds@, old(self)@, lang@, code@),
            final(self)@.holds(r@),
            old(self)@.grows_to(final(self)@),
        decreases ast, 0nat,
    {
        let endless = lookup(lang, ast.kind.as_str()) == Kind::InfiniteLoop;
        let header = self.push_node(make_node(StmtKind::Loop, ast, lang, code));
        self.connect_all(preds, header, EdgeKind::Sequential);
        let b = find_body(ast, lang, !endless);
        if b < ast.children.len() {
            let from = single(header);
            let mut body_exits = self.build_sub(&ast.children[b], &from, lang, code);
            self.connect_all(&body_exits, header, EdgeKind::Back);
            if endless {
                body_exits.push(header);
                body_exits
            } else {
                from
            }
        } else {
            self.fail(BuildError::MissingBody);
            Vec::new()
        }
    }

    /// Lowers a function and records its summary.
    fn lower_function(&mut self, ast: &SyntaxNode, preds: &Vec<usize>, lang: &str, code: &[u8]) -> (r:
        Vec<usize>)
        requires
            old(self).wf(),
            old(self)@.holds(preds@),
            old(self)@.failed is None,
            kind_of(lang@, ast.kind@) == Kind::Function,
        ensures
            final(self).wf(),
            (final(self)@, r@) == lower(*ast, preds@, old(self)@, lang@, code@),
            final(self)@.holds(r@),
            old(self)@.grows_to(final(self)@),
        decreases ast, 0nat,
    {
        let name = match text_of_child(ast.child_by_field_name("name"), code) {
            Some(t) => t,
            None => String::from_str("<anon>"),
        };
        let entry = self.push_node(make_node(StmtKind::Sequential, ast, lang, code));
        self.connect_all(preds, entry, EdgeKind::Sequential);
        let b = find_body(ast, lang, false);
        if b < ast.children.len() {
            let from = single(entry);
            let body_exits = self.build_sub(&ast.children[b], &from, lang, code);
            if self.failed.is_some() {
                return Vec::new();
            }
            let label = self.summarize(&body_exits, ast.start_byte, ast.end_byte);
            let exit = self.push_node(
                make_synthetic(StmtKind::Return, ast.start_byte, ast.end_byte),
            );
            self.connect_all(&body_exits, exit, EdgeKind::Sequential);
            self.record(name, FuncSummary { entry, exit, label });
            single(exit)
        } else {
            self.fail(BuildError::MissingBody);
            Vec::new()
        }
    }

    /// Lowers the subtree `ast` behind the frontier `preds` and returns the
    /// frontier that awaits a successor.
    fn build_sub(&mut self, ast: &SyntaxNode, preds: &Vec<usize>, lang: &str, code: &[u8]) -> (r: Vec<
        usize,
    >)
        requires
            old(self).wf(),
            old(self)@.holds(preds@),
        ensures
            final(self).wf(),
            (final(self)@, r@) == lower(*ast, preds@, old(self)@, lang@, code@),
            final(self)@.holds(r@),
            old(self)@.grows_to(final(self)@),
        decreases ast, 1nat,
    {
        if self.failed.is_some() {
            return Vec::new();
        }
        let k = lookup(lang, ast.kind.as_str());
        match k {
            Kind::Trivia => joined(preds, &Vec::new()),
            Kind::SourceFile | Kind::Block => {
                let mut frontier = joined(preds, &Vec::new());
                let mut i: usize = 0;
                while i < ast.children.len()
                    invariant
                        i <= ast.children.len(),
                        self.wf(),
                        self@.holds(frontier@),
                        old(self)@.grows_to(self@),
                        (self@, frontier@) == lower_upto(
                            *ast,
                            i as nat,
                            preds@,
                            old(self)@,
                            lang@,
                            code@,
                        ),
                    decreases ast.children.len() - i,
                {
                    frontier = self.build_sub(&ast.children[i], &frontier, lang, code);
                    i += 1;
                }
                frontier
            },
            Kind::Return | Kind::Break | Kind::Continue => {
                let kind = match k {
                    Kind::Return => StmtKind::Return,
                    Kind::Break => StmtKind::Break,
                    _ => StmtKind::Continue,
                };
                let n = self.push_node(make_node(kind, ast, lang, code));
                self.connect_all(preds, n, EdgeKind::Sequential);
                Vec::new()
            },
            Kind::If => self.lower_if(ast, preds, lang, code),
            Kind::InfiniteLoop | Kind::While | Kind::For => self.lower_loop(ast, preds, lang, code),
            Kind::Function => self.lower_function(ast, preds, lang, code),
            Kind::CallWrapper => {
                let inner = find_branch(ast, lang, 0);
                if inner < ast.children.len() {
                    self.build_sub(&ast.children[inner], preds, lang, code)
                } else {
                    let kind = if find_call(ast, lang, 0) < ast.children.len() {
                        StmtKind::Call
                    } else {
                        StmtKind::Sequential
                    };
                    let n = self.push_node(make_node(kind, ast, lang, code));
                    self.connect_all(preds, n, EdgeKind::Sequential);
                    single(n)
                }
            },
            _ => {
                let n = self.push_node(make_node(StmtKind::Sequential, ast, lang, code));
                self.connect_all(preds, n, EdgeKind::Sequential);
                single(n)
            },
        }
    }

    /// The label that stands for the function that spans `start..end`.
    fn summarize(&self, exits: &Vec<usize>, start: usize, end: usize) -> (r: Option<DataLabel>)
        requires
            self.wf(),
        ensures
            r == function_label(self@.graph.nodes, exits@, start, end),
    {
        let n = self.graph.node_count();
        let mut taint = Taint::new();
        let mut src = Cap::empty();
        let mut sani = Cap::empty();
        let mut sink = Cap::empty();
        let mut i: usize = 0;
        while i < n
            invariant
                i <= n,
                n == self@.graph.nodes.len(),
                self.wf(),
                sweep_upto(self@.graph.nodes, exits@, start, end, i as int) == (SweepModel {
                    taint: taint@,
                    src,
                    sani,
                    sink,
                }),
            decreases n - i,
        {
            let info = self.graph.node(i);
            if start <= info.span.0 && info.span.1 <= end {
                let incoming = taint.join(&info.uses);
                let out = match info.label {
                    Some(DataLabel::Source(b)) => incoming.union(b),
                    Some(DataLabel::Sanitizer(b)) => incoming.difference(b),
                    _ => incoming,
                };
                match info.label {
                    Some(DataLabel::Source(b)) => {
                        src = src.union(b);
                    },
                    Some(DataLabel::Sanitizer(b)) => {
                        sani = sani.union(b);
                    },
                    Some(DataLabel::Sink(b)) => {
                        sink = sink.union(b);
                    },
                    None => {},
                }
                assert(src == sweep_upto(self@.graph.nodes, exits@, start, end, i as int).src.spec_union(
                    source_bits(info@.label),
                )) by {
                    lemma_union_empty(sweep_upto(self@.graph.nodes, exits@, start, end, i as int).src);
                }
                assert(sani == sweep_upto(self@.graph.nodes, exits@, start, end, i as int).sani.spec_union(
                    sanitizer_bits(info@.label),
                )) by {
                    lemma_union_empty(sweep_upto(self@.graph.nodes, exits@, start, end, i as int).sani);
                }
                assert(sink == sweep_upto(self@.graph.nodes, exits@, start, end, i as int).sink.spec_union(
                    sink_bits(info@.label),
                )) by {
                    lemma_union_empty(sweep_upto(self@.graph.nodes, exits@, start, end, i as int).sink);
                }
                let falls_out = has_index(exits, i);
                if info.kind == StmtKind::Return || falls_out {
                    src = src.union(out);
                } else {
                    proof {
                        lemma_union_empty(src);
                    }
                }
                match &info.defines {
                    Some(d) => {
                        taint.set(d.as_str(), out);
                    },
                    None => {},
                }
            }
            i += 1;
        }
        if !sink.is_empty() {
            Some(DataLabel::Sink(sink))
        } else if !sani.is_empty() {
            Some(DataLabel::Sanitizer(sani))
        } else if !src.is_empty() {
            Some(DataLabel::Source(src))
        } else {
            None
        }
    }
}

/// Adding no capability changes nothing.
pub proof fn lemma_union_empty(c: Cap)
    ensures
        c.spec_union(Cap { raw: 0 }) == c,
{
    let r = c.raw;
    assert(r | 0u8 == r) by (bit_vector);
}


/// Builds the control-flow graph of a file from its syntax tree. The graph
/// begins with a synthetic entry, at index 0, and a synthetic exit, at index
/// 1; what falls out of the tree flows into the exit. Every other node
/// stands for a statement of the tree and is labelled by that statement's
/// own text, or is the synthetic exit of a function. Gives the graph, the
/// index of the entry and the summaries of the functions, or says why the
/// tree could not be lowered.
pub fn build_cfg(tree: &SyntaxNode, code: &[u8], lang: &str) -> (r: Result<
    (Cfg, usize, FuncSummaries),
    BuildError,
>)
    ensures
        match r {
            Ok((graph, entry, summaries)) => {
                &&& build_model(*tree, code@, lang@).failed is None
                &&& graph@ == build_model(*tree, code@, lang@).graph
                &&& summaries@ == build_model(*tree, code@, lang@).summaries
                &&& entry == 0
                &&& graph.wf()
                &&& graph@.nodes.len() >= 2
                &&& graph@.nodes[0] == synthetic_node(StmtKind::Entry, 0, 0)
                &&& graph@.nodes[1] == synthetic_node(
                    StmtKind::Exit,
                    code@.len() as usize,
                    code@.len() as usize,
                )
                &&& crate::invariants::well_formed(graph@, lang@)
                &&& crate::origin::nodes_of_tree(graph@, *tree, lang@, code@)
                &&& crate::origin::exits_are_synthetic(graph@, summaries@)
                &&& crate::invariants::steady(*tree, lang@) ==> crate::invariants::connected(
                    graph@,
                )
            },
            Err(e) => build_model(*tree, code@, lang@).failed == Some(e),
        },
{
    let mut b = Builder { graph: Cfg::new(), summaries: FuncSummaries::new(), failed: None };
    assert(b@ == BuildModel::start()) by {
        assert(b@.graph.nodes =~= Seq::<NodeModel>::empty());
        assert(b@.graph.edges =~= Seq::<EdgeModel>::empty());
    }
    let entry = b.push_node(make_synthetic(StmtKind::Entry, 0, 0));
    let exit = b.push_node(make_synthetic(StmtKind::Exit, code.len(), code.len()));
    let ghost s2 = b@;
    let from = single(entry);
    let exits = b.build_sub(tree, &from, lang, code);
    let ghost s3 = b@;
    b.connect_all(&exits, exit, EdgeKind::Sequential);
    proof {
        if b@.failed is None {
            assert(s3.graph.nodes[0] == s2.graph.nodes[0]);
            assert(s3.graph.nodes[1] == s2.graph.nodes[1]);
            crate::invariants::lemma_built_graph(*tree, code@, lang@);
            crate::origin::lemma_nodes_stand_for_statements(*tree, code@, lang@);
        }
    }
    match b.failed {
        Some(e) => Err(e),
        None => Ok((b.graph, 0, b.summaries)),
    }
}

} // verus!
