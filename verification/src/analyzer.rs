//! The file analyzer: guards against binary files, finds the language,
//! runs the taint engine over the graph of the file and brings all
//! diagnostics into their normal form.

use crate::cfg::{build_cfg, build_model, BuildError};
use crate::config::{AnalysisMode, ScannerConfig};
use crate::diag::{diag_models, lemma_normal_members, normal, normalize, Diag, DiagModel};
use crate::errors::NyxError;
use crate::ext::{known_ext, language_of, lowercase_ext, opt_str, slug_of};
use crate::graph::{Cfg, CfgModel};
use crate::patterns::Severity;
use crate::syntax::SyntaxNode;
use crate::taint::{analyse_file, paths, search};
use vstd::prelude::*;
use vstd::string::StringExecFns;

verus! {

/// How many of the first `k` bytes are NUL.
pub open spec fn nul_count(bytes: Seq<u8>, k: int) -> int
    decreases k,
{
    if k <= 0 || k > bytes.len() {
        0
    } else if bytes[k - 1] == 0 {
        nul_count(bytes, k - 1) + 1
    } else {
        nul_count(bytes, k - 1)
    }
}

/// A file counts as binary when its NUL bytes, in whole percent of its
/// length, are more than one.
pub open spec fn looks_binary(bytes: Seq<u8>) -> bool {
    let len = if bytes.len() == 0 {
        1
    } else {
        bytes.len() as int
    };
    nul_count(bytes, bytes.len() as int) * 100 / len > 1
}

proof fn lemma_nul_count_bound(bytes: Seq<u8>, k: int)
    requires
        0 <= k <= bytes.len(),
    ensures
        0 <= nul_count(bytes, k) <= k,
    decreases k,
{
    if k > 0 {
        lemma_nul_count_bound(bytes, k - 1);
    }
}

/// Whether the file is taken for binary.
pub fn is_binary(bytes: &[u8]) -> (r: bool)
    ensures
        r == looks_binary(bytes@),
{
    let mut nuls: usize = 0;
    let mut i: usize = 0;
    while i < bytes.len()
        invariant
            i <= bytes.len(),
            nuls == nul_count(bytes@, i as int),
            nuls <= i,
        decreases bytes.len() - i,
    {
        if bytes[i] == 0 {
            nuls += 1;
        }
        i += 1;
    }
    let len: usize = if bytes.len() == 0 {
        1
    } else {
        bytes.len()
    };
    let scaled: u128 = (nuls as u128) * 100;
    scaled / (len as u128) > 1
}

/// Whether a child reaches over the byte: it ends behind it, or, being
/// empty, at it.
pub open spec fn reaches(c: SyntaxNode, byte: usize) -> bool {
    if c.start_byte == c.end_byte {
        c.end_byte >= byte
    } else {
        c.end_byte > byte
    }
}

/// The first index at or after `i` whose node reaches over the byte, or the
/// length.
pub open spec fn reaching_index(children: Seq<SyntaxNode>, byte: usize, i: int) -> int
    decreases children.len() - i,
{
    if 0 <= i < children.len() && !reaches(children[i], byte) {
        reaching_index(children, byte, i + 1)
    } else {
        i
    }
}

/// The smallest node at or below `n` that holds the byte: the descent goes
/// into the first child that reaches over the byte, as long as that child
/// begins at or before it.
pub open spec fn smallest_at(n: SyntaxNode, byte: usize) -> SyntaxNode
    decreases n,
{
    let i = reaching_index(n.children@, byte, 0);
    if 0 <= i < n.children@.len() && n.children@[i].start_byte <= byte {
        smallest_at(n.children@[i], byte)
    } else {
        n
    }
}

/// Row and column, counted from zero, at which the smallest node that
/// holds the byte begins.
pub open spec fn point_at(tree: SyntaxNode, byte: usize) -> (usize, usize) {
    let n = smallest_at(tree, byte);
    (n.start_row, n.start_col)
}

/// Row and column, counted from zero, at which the smallest node that
/// holds the byte begins.
pub fn byte_offset_to_point(tree: &SyntaxNode, byte: usize) -> (r: (usize, usize))
    ensures
        r == point_at(*tree, byte),
    decreases tree,
{
    let mut i: usize = 0;
    while i < tree.children.len() && !touches(&tree.children[i], byte)
        invariant
            i <= tree.children.len(),
            reaching_index(tree.children@, byte, 0) == reaching_index(
                tree.children@,
                byte,
                i as int,
            ),
        decreases tree.children.len() - i,
    {
        i += 1;
    }
    if i < tree.children.len() && tree.children[i].start_byte <= byte {
        byte_offset_to_point(&tree.children[i], byte)
    } else {
        (tree.start_row, tree.start_col)
    }
}

fn touches(c: &SyntaxNode, byte: usize) -> (r: bool)
    ensures
        r == reaches(*c, byte),
{
    if c.start_byte == c.end_byte {
        c.end_byte >= byte
    } else {
        c.end_byte > byte
    }
}

/// A position counted from one, for a position counted from zero.
pub open spec fn one_based(x: usize) -> int {
    if x < usize::MAX {
        x + 1
    } else {
        x as int
    }
}

fn from_one(x: usize) -> (r: usize)
    ensures
        r as int == one_based(x),
{
    if x < usize::MAX {
        x + 1
    } else {
        x
    }
}

/// The diagnostic of a tainted flow: it points at the first node of the
/// path.
pub open spec fn finding_diag(path: Seq<char>, g: CfgModel, tree: SyntaxNode, p: Seq<usize>) -> DiagModel {
    let at = point_at(tree, g.nodes[p[0] as int].span.0);
    DiagModel {
        path,
        line: one_based(at.0),
        col: one_based(at.1),
        severity: Severity::High,
        id: "taint-unsanitised-flow"@,
    }
}

/// The diagnostics of tainted flows, one for each path.
pub open spec fn finding_diags(
    path: Seq<char>,
    g: CfgModel,
    tree: SyntaxNode,
    ps: Seq<Seq<usize>>,
) -> Seq<DiagModel> {
    Seq::new(ps.len(), |i: int| finding_diag(path, g, tree, ps[i]))
}

/// One match of a structural pattern: the rule, its severity, and row and
/// column, counted from zero, of the node that the match is anchored at.
#[derive(Debug, Clone)]
pub struct PatternHit {
    pub id: String,
    pub severity: Severity,
    pub row: usize,
    pub col: usize,
}

/// A rule is reported when it is at least as severe as the minimum.
pub open spec fn reported(min: Severity, s: Severity) -> bool {
    s.rank() <= min.rank()
}

/// The diagnostic of a pattern match in the file at `path`.
pub open spec fn hit_diag(path: Seq<char>, h: PatternHit) -> DiagModel {
    DiagModel {
        path,
        line: one_based(h.row),
        col: one_based(h.col),
        severity: h.severity,
        id: h.id@,
    }
}

/// The diagnostics of those of the first `k` matches whose rule is
/// reported.
pub open spec fn hit_diags(path: Seq<char>, min: Severity, hits: Seq<PatternHit>, k: int) -> Seq<
    DiagModel,
>
    decreases k,
{
    if k <= 0 || k > hits.len() {
        Seq::empty()
    } else if reported(min, hits[k - 1].severity) {
        hit_diags(path, min, hits, k - 1).push(hit_diag(path, hits[k - 1]))
    } else {
        hit_diags(path, min, hits, k - 1)
    }
}

/// Whether the mode asks for the taint analysis.
pub open spec fn runs_taint(mode: AnalysisMode) -> bool {
    mode != AnalysisMode::Ast
}

/// Whether the mode asks for the structural patterns.
pub open spec fn runs_patterns(mode: AnalysisMode) -> bool {
    mode != AnalysisMode::Taint
}

/// The diagnostics of the tainted flows of a file, before they are brought
/// into normal form; or why its graph could not be built.
pub open spec fn taint_part(path: Seq<char>, tree: SyntaxNode, code: Seq<u8>, lang: Seq<char>) -> Result<
    Seq<DiagModel>,
    BuildError,
> {
    let m = build_model(tree, code, lang);
    match m.failed {
        Some(e) => Err(e),
        None => {
            let sm = search(m.graph, m.summaries, 0);
            Ok(
                finding_diags(
                    path,
                    m.graph,
                    tree,
                    sm.report(m.graph, m.summaries, sm.states.len() as int),
                ),
            )
        },
    }
}

/// The diagnostics of a parsed file: those of its tainted flows, where the
/// mode asks for them, followed by those of the pattern matches, where the
/// mode asks for them and the rule is reported, all in normal form.
pub open spec fn analysis(
    path: Seq<char>,
    tree: SyntaxNode,
    code: Seq<u8>,
    lang: Seq<char>,
    mode: AnalysisMode,
    min: Severity,
    hits: Seq<PatternHit>,
) -> Result<Seq<DiagModel>, BuildError> {
    let flows = if runs_taint(mode) {
        taint_part(path, tree, code, lang)
    } else {
        Ok(Seq::empty())
    };
    let matches = if runs_patterns(mode) {
        hit_diags(path, min, hits, hits.len() as int)
    } else {
        Seq::empty()
    };
    match flows {
        Ok(f) => Ok(normal(f + matches)),
        Err(e) => Err(e),
    }
}

/// A diagnostic of the file at `path` whose line and column count from
/// one.
pub open spec fn points_into(d: DiagModel, path: Seq<char>) -> bool {
    d.path == path && 1 <= d.line <= usize::MAX && 1 <= d.col <= usize::MAX
}

proof fn lemma_hit_diags(path: Seq<char>, min: Severity, hits: Seq<PatternHit>, k: int)
    ensures
        forall|j: int|
            0 <= j < hit_diags(path, min, hits, k).len() ==> points_into(
                #[trigger] hit_diags(path, min, hits, k)[j],
                path,
            ),
    decreases k,
{
    if 0 < k <= hits.len() {
        lemma_hit_diags(path, min, hits, k - 1);
        let prev = hit_diags(path, min, hits, k - 1);
        let now = hit_diags(path, min, hits, k);
        assert forall|j: int| 0 <= j < now.len() implies points_into(#[trigger] now[j], path) by {
            if j < prev.len() {
                assert(now[j] == prev[j]);
            } else {
                assert(now[j] == hit_diag(path, hits[k - 1]));
            }
        }
    }
}

/// Every diagnostic of a file names the file, and its line and column
/// count from one.
pub proof fn lemma_analysis_points_into(
    path: Seq<char>,
    tree: SyntaxNode,
    code: Seq<u8>,
    lang: Seq<char>,
    mode: AnalysisMode,
    min: Severity,
    hits: Seq<PatternHit>,
)
    ensures
        analysis(path, tree, code, lang, mode, min, hits) matches Ok(ds) ==> forall|j: int|
            0 <= j < ds.len() ==> points_into(#[trigger] ds[j], path),
{
    if let Ok(ds) = analysis(path, tree, code, lang, mode, min, hits) {
        let flows = if runs_taint(mode) {
            taint_part(path, tree, code, lang)->Ok_0
        } else {
            Seq::empty()
        };
        let matches = if runs_patterns(mode) {
            hit_diags(path, min, hits, hits.len() as int)
        } else {
            Seq::empty()
        };
        let input = flows + matches;
        lemma_hit_diags(path, min, hits, hits.len() as int);
        lemma_normal_members(input, input.len() as int);
        assert forall|j: int| 0 <= j < ds.len() implies points_into(#[trigger] ds[j], path) by {
            let i = choose|i: int| 0 <= i < input.len() && input[i] == ds[j];
            if i < flows.len() {
                assert(input[i] == flows[i]);
            } else {
                assert(input[i] == matches[i - flows.len()]);
            }
        }
    }
}

fn is_reported(min: Severity, s: Severity) -> (r: bool)
    ensures
        r == reported(min, s),
{
    match min {
        Severity::Low => true,
        Severity::Medium => match s {
            Severity::Low => false,
            _ => true,
        },
        Severity::High => match s {
            Severity::High => true,
            _ => false,
        },
    }
}

/// Appends the diagnostics of the tainted flows of the file to `out`.
fn push_flows(
    out: &mut Vec<Diag>,
    path: &str,
    tree: &SyntaxNode,
    graph: &Cfg,
    findings: &Vec<Vec<usize>>,
)
    requires
        graph.wf(),
        forall|x: int| 0 <= x < findings@.len() ==> (#[trigger] findings@[x])@.len() > 0,
        forall|x: int, y: int|
            0 <= x < findings@.len() && 0 <= y < findings@[x]@.len() ==> (
            #[trigger] findings@[x]@[y]) < graph@.nodes.len(),
    ensures
        diag_models(final(out)@) == diag_models(old(out)@) + finding_diags(
            path@,
            graph@,
            *tree,
            paths(findings@),
        ),
{
    let ghost want = finding_diags(path@, graph@, *tree, paths(findings@));
    let mut i: usize = 0;
    while i < findings.len()
        invariant
            i <= findings.len(),
            graph.wf(),
            want == finding_diags(path@, graph@, *tree, paths(findings@)),
            forall|x: int| 0 <= x < findings@.len() ==> (#[trigger] findings@[x])@.len() > 0,
            forall|x: int, y: int|
                0 <= x < findings@.len() && 0 <= y < findings@[x]@.len() ==> (
                #[trigger] findings@[x]@[y]) < graph@.nodes.len(),
            diag_models(out@) == diag_models(old(out)@) + want.take(i as int),
        decreases findings.len() - i,
    {
        let p = &findings[i];
        let first = p[0];
        let byte = graph.node(first).span.0;
        let at = byte_offset_to_point(tree, byte);
        let d = Diag {
            path: path.to_owned(),
            line: from_one(at.0),
            col: from_one(at.1),
            severity: Severity::High,
            id: String::from_str("taint-unsanitised-flow"),
        };
        let ghost before = diag_models(out@);
        out.push(d);
        assert(diag_models(out@) =~= before.push(d@));
        i += 1;
    }
}

/// Appends the diagnostics of the reported pattern matches to `out`.
fn push_hits(out: &mut Vec<Diag>, path: &str, min: Severity, hits: &Vec<PatternHit>)
    ensures
        diag_models(final(out)@) == diag_models(old(out)@) + hit_diags(
            path@,
            min,
            hits@,
            hits@.len() as int,
        ),
{
    let mut i: usize = 0;
    while i < hits.len()
        invariant
            i <= hits.len(),
            diag_models(out@) == diag_models(old(out)@) + hit_diags(path@, min, hits@, i as int),
        decreases hits.len() - i,
    {
        let h = &hits[i];
        if is_reported(min, h.severity) {
            let d = Diag {
                path: path.to_owned(),
                line: from_one(h.row),
                col: from_one(h.col),
                severity: h.severity,
                id: h.id.clone(),
            };
            let ghost before = diag_models(out@);
            out.push(d);
            assert(diag_models(out@) =~= before.push(d@));
        }
        i += 1;
    }
}

/// Analyses a parsed file: builds its graph, searches it for tainted flows
/// and adds the pattern matches, as far as the mode asks for each; the
/// diagnostics come in normal form, so no two of them are alike. Fails
/// where the graph cannot be built.
pub fn analyse_source(
    path: &str,
    tree: &SyntaxNode,
    code: &[u8],
    lang: &str,
    scanner: &ScannerConfig,
    hits: &Vec<PatternHit>,
) -> (r: Result<Vec<Diag>, BuildError>)
    ensures
        match r {
            Ok(diags) => analysis(
                path@,
                *tree,
                code@,
                lang@,
                scanner.mode,
                scanner.min_severity,
                hits@,
            ) == Ok::<Seq<DiagModel>, BuildError>(diag_models(diags@)) && forall|i: int, j: int|
                0 <= i < diags@.len() && 0 <= j < diags@.len() && i != j ==> !(
                #[trigger] diags@[i]@).same_key(#[trigger] diags@[j]@),
            Err(e) => analysis(
                path@,
                *tree,
                code@,
                lang@,
                scanner.mode,
                scanner.min_severity,
                hits@,
            ) == Err::<Seq<DiagModel>, BuildError>(e),
        },
{
    let mut raw: Vec<Diag> = Vec::new();
    let taint = match scanner.mode {
        AnalysisMode::Ast => false,
        _ => true,
    };
    let patterns = match scanner.mode {
        AnalysisMode::Taint => false,
        _ => true,
    };
    if taint {
        match build_cfg(tree, code, lang) {
            Ok((graph, entry, summaries)) => {
                let findings = analyse_file(&graph, entry, &summaries);
                push_flows(&mut raw, path, tree, &graph, &findings);
            },
            Err(e) => {
                return Err(e);
            },
        }
    }
    if patterns {
        push_hits(&mut raw, path, scanner.min_severity, hits);
    }
    Ok(normalize(&raw))
}

/// Whether the time allowed for a file has run out: it has when a limit is
/// set and more seconds than that have passed.
pub open spec fn timed_out(elapsed_secs: u64, limit: Option<u64>) -> bool {
    match limit {
        Some(l) => elapsed_secs > l,
        None => false,
    }
}

/// Gives up the analysis of the file at `path` when its time has run out.
pub fn check_deadline(path: &str, elapsed_secs: u64, limit: Option<u64>) -> (r: Result<
    (),
    NyxError,
>)
    ensures
        match r {
            Ok(_) => !timed_out(elapsed_secs, limit),
            Err(e) => timed_out(elapsed_secs, limit) && (e matches NyxError::CancelledFile(p)
                && p@ == path@),
        },
{
    match limit {
        Some(l) => if elapsed_secs > l {
            Err(NyxError::CancelledFile(path.to_owned()))
        } else {
            Ok(())
        },
        None => Ok(()),
    }
}

/// What is to be done with a file.
#[derive(Debug, Clone, Copy, PartialEq, Eq)]
pub enum Plan {
    /// The file is binary or of no supported language: it has no
    /// diagnostics.
    Skip,
    /// The file is to be parsed as a source of this language.
    Parse(&'static str),
}

/// The language as which a file is parsed, if it is.
pub open spec fn planned(path: Seq<char>, bytes: Seq<u8>) -> Option<Seq<char>> {
    if looks_binary(bytes) {
        None
    } else {
        match known_ext(path) {
            Some(e) => slug_of(e),
            None => None,
        }
    }
}

/// Decides whether a file is parsed, and as what: a binary file is not, nor
/// one whose extension is that of no supported language.
pub fn plan_file(path: &str, bytes: &[u8]) -> (p: Plan)
    ensures
        match p {
            Plan::Skip => planned(path@, bytes@) is None,
            Plan::Parse(lang) => planned(path@, bytes@) == Some(lang@),
        },
{
    if is_binary(bytes) {
        return Plan::Skip;
    }
    match lowercase_ext(path) {
        Some(e) => match language_of(e) {
            Some(lang) => Plan::Parse(lang),
            None => Plan::Skip,
        },
        None => Plan::Skip,
    }
}

/// The parse of a file, handed in by whoever runs the parser: the syntax
/// tree and the matches of the structural patterns.
#[derive(Debug)]
pub struct Parsed {
    pub tree: SyntaxNode,
    pub hits: Vec<PatternHit>,
}

/// The message of a build that failed.
pub open spec fn build_error_text(e: BuildError) -> Seq<char> {
    match e {
        BuildError::TooLarge => "control-flow graph too large"@,
        BuildError::MissingBody => "loop or function without body"@,
    }
}

/// The diagnostics of a file. A binary file has none, whatever it holds,
/// nor has a file of no supported language. Any other file has those of its
/// parse; it is an error when there is no parse or when its graph cannot be
/// built.
pub fn run_rules_on_file(
    path: &str,
    bytes: &[u8],
    parsed: Option<&Parsed>,
    scanner: &ScannerConfig,
) -> (r: Result<Vec<Diag>, NyxError>)
    ensures
        looks_binary(bytes@) ==> (r matches Ok(diags) && diags@.len() == 0),
        match planned(path@, bytes@) {
            None => r matches Ok(diags) && diags@.len() == 0,
            Some(lang) => match parsed {
                None => r matches Err(NyxError::Other(m)) && m@ == "tree-sitter failed"@,
                Some(p) => match analysis(
                    path@,
                    p.tree,
                    bytes@,
                    lang,
                    scanner.mode,
                    scanner.min_severity,
                    p.hits@,
                ) {
                    Ok(ds) => r matches Ok(diags) && diag_models(diags@) == ds,
                    Err(e) => r matches Err(NyxError::Msg(m)) && m@ == build_error_text(e),
                },
            },
        },
        r matches Ok(diags) ==> (forall|i: int, j: int|
            0 <= i < diags@.len() && 0 <= j < diags@.len() && i != j ==> !(
            #[trigger] diags@[i]@).same_key(#[trigger] diags@[j]@)),
{
    match plan_file(path, bytes) {
        Plan::Skip => Ok(Vec::new()),
        Plan::Parse(lang) => match parsed {
            None => Err(NyxError::Other(String::from_str("tree-sitter failed"))),
            Some(p) => match analyse_source(path, &p.tree, bytes, lang, scanner, &p.hits) {
                Ok(diags) => Ok(diags),
                Err(BuildError::TooLarge) => Err(
                    NyxError::Msg(String::from_str("control-flow graph too large")),
                ),
                Err(BuildError::MissingBody) => Err(
                    NyxError::Msg(String::from_str("loop or function without body")),
                ),
            },
        },
    }
}

} // verus!
