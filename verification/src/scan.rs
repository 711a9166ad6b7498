//! The scan of one file against the result cache, and what is done with the
//! diagnostics of all files: grouping by path, counting and truncation.

use crate::analyzer::{
    analysis, lemma_analysis_points_into, plan_file, planned, points_into, run_rules_on_file,
    Parsed, Plan,
};
use crate::cache::{
    blake3_digest, digest_file, issue_rows, issues_of, lemma_recorded_leaves_others,
    lemma_rescan_reads_back, stored_diags, IndexModel, Indexer,
};
use crate::config::{AnalysisMode, ScannerConfig};
use crate::diag::{diag_models, Diag, DiagModel};
use crate::patterns::Severity;
use crate::text::{lemma_text_total, lemma_text_transitive, place_of_text, text_before, Place};
use vstd::prelude::*;

verus! {

/// The diagnostics that the analysis of a file gives; an analysis that
/// fails gives none.
pub open spec fn fresh_diags(
    path: Seq<char>,
    bytes: Seq<u8>,
    parsed: Option<&Parsed>,
    mode: AnalysisMode,
    min: Severity,
) -> Seq<DiagModel> {
    match planned(path, bytes) {
        None => Seq::empty(),
        Some(lang) => match parsed {
            None => Seq::empty(),
            Some(p) => match analysis(path, p.tree, bytes, lang, mode, min, p.hits@) {
                Ok(ds) => ds,
                Err(_) => Seq::empty(),
            },
        },
    }
}

/// The language as which a file has to be parsed before it is scanned: a
/// file that the cache holds unchanged is not parsed, nor a binary file or
/// one of no supported language.
pub fn needs_parse(idx: &Indexer, path: &str, bytes: &[u8], mtime: i64) -> (r: Option<&'static str>)
    ensures
        crate::ext::opt_str(r) == if idx@.needs_scan(path@, blake3_digest(bytes@), mtime) {
            planned(path@, bytes@)
        } else {
            None
        },
{
    let digest = digest_file(bytes);
    if idx.should_scan(path, digest.as_slice(), mtime) {
        match plan_file(path, bytes) {
            Plan::Parse(lang) => Some(lang),
            Plan::Skip => None,
        }
    } else {
        None
    }
}

/// The cache after a file was scanned that gave the diagnostics `fresh`: a
/// file that the cache holds unchanged leaves the cache as it is; the scan
/// of any other file is recorded.
pub open spec fn scanned(
    idx: IndexModel,
    path: Seq<char>,
    digest: Seq<u8>,
    mtime: i64,
    now: i64,
    fresh: Seq<DiagModel>,
) -> IndexModel {
    if idx.needs_scan(path, digest, mtime) {
        idx.recorded(path, digest, mtime, now, issues_of(fresh))
    } else {
        idx
    }
}

/// The diagnostics of the scan of a file that would give `fresh` when it is
/// analysed: those that the cache holds, for a file that it holds
/// unchanged, and `fresh` for any other.
pub open spec fn scan_result(
    idx: IndexModel,
    path: Seq<char>,
    digest: Seq<u8>,
    mtime: i64,
    fresh: Seq<DiagModel>,
) -> Seq<DiagModel> {
    if idx.needs_scan(path, digest, mtime) {
        fresh
    } else {
        stored_diags(path, idx.file(path)->0.issues)
    }
}

/// Scans one file against the cache. A file that the cache holds unchanged
/// is not analysed: its diagnostics are those that the cache holds. Any
/// other file is analysed, and its row is stored together with what was
/// found; where the cache does not take that, the diagnostics are returned
/// all the same and the cache stays as it was, so that the file is scanned
/// again the next time.
pub fn scan_file(
    idx: &mut Indexer,
    path: &str,
    bytes: &[u8],
    mtime: i64,
    now: i64,
    parsed: Option<&Parsed>,
    scanner: &ScannerConfig,
) -> (r: Vec<Diag>)
    ensures
        old(idx).wf() ==> final(idx).wf(),
        final(idx).project_name() == old(idx).project_name(),
        diag_models(r@) == scan_result(
            old(idx)@,
            path@,
            blake3_digest(bytes@),
            mtime,
            fresh_diags(path@, bytes@, parsed, scanner.mode, scanner.min_severity),
        ),
        final(idx)@ == scanned(
            old(idx)@,
            path@,
            blake3_digest(bytes@),
            mtime,
            now,
            fresh_diags(path@, bytes@, parsed, scanner.mode, scanner.min_severity),
        ),
{
    let digest = digest_file(bytes);
    if idx.should_scan(path, digest.as_slice(), mtime) {
        let found = match run_rules_on_file(path, bytes, parsed, scanner) {
            Ok(d) => d,
            Err(_) => Vec::new(),
        };
        let rows = issue_rows(&found);
        let _ = idx.record_scan(path, digest.as_slice(), mtime, now, &rows);
        found
    } else {
        match idx.get_issues_from_file(path) {
            Ok(d) => d,
            Err(_) => Vec::new(),
        }
    }
}

/// The cache agrees with the analysis of a file: where it holds the file
/// unchanged, the diagnostics that it holds for the file are `fresh`.
pub open spec fn agrees(
    idx: IndexModel,
    path: Seq<char>,
    digest: Seq<u8>,
    mtime: i64,
    fresh: Seq<DiagModel>,
) -> bool {
    !idx.needs_scan(path, digest, mtime) ==> stored_diags(path, idx.file(path)->0.issues) == fresh
}

/// Whether each of the diagnostics is one of the file at `path` with a line
/// and a column that can be stored.
pub open spec fn storable(fresh: Seq<DiagModel>, path: Seq<char>) -> bool {
    forall|i: int|
        0 <= i < fresh.len() ==> points_into(#[trigger] fresh[i], path) && fresh[i].line
            <= i64::MAX && fresh[i].col <= i64::MAX
}

/// The diagnostics that the analysis of a file gives are diagnostics of
/// that file, with lines and columns that count from one.
pub proof fn lemma_fresh_diags_point_into(
    path: Seq<char>,
    bytes: Seq<u8>,
    parsed: Option<&Parsed>,
    mode: AnalysisMode,
    min: Severity,
)
    ensures
        forall|i: int|
            0 <= i < fresh_diags(path, bytes, parsed, mode, min).len() ==> points_into(
                #[trigger] fresh_diags(path, bytes, parsed, mode, min)[i],
                path,
            ),
{
    if let Some(lang) = planned(path, bytes) {
        if let Some(p) = parsed {
            lemma_analysis_points_into(path, p.tree, bytes, lang, mode, min, p.hits@);
        }
    }
}

/// A scan keeps the cache in agreement with the analysis: when the cache
/// agreed before the scan of a file, then after it the file is either
/// scanned again or its stored diagnostics are those of its analysis; and
/// both this scan and the next one of the unchanged file return what the
/// analysis gives.
pub proof fn lemma_scan_agrees(
    idx: IndexModel,
    path: Seq<char>,
    digest: Seq<u8>,
    mtime: i64,
    now: i64,
    fresh: Seq<DiagModel>,
)
    requires
        idx.wf(),
        storable(fresh, path),
        agrees(idx, path, digest, mtime, fresh),
    ensures
        agrees(scanned(idx, path, digest, mtime, now, fresh), path, digest, mtime, fresh),
        scan_result(idx, path, digest, mtime, fresh) == fresh,
        scan_result(scanned(idx, path, digest, mtime, now, fresh), path, digest, mtime, fresh)
            == fresh,
{
    if idx.needs_scan(path, digest, mtime) && idx.takes(path, issues_of(fresh)) {
        lemma_rescan_reads_back(idx, path, digest, mtime, now, fresh);
    }
}

/// The scan of one file leaves what the cache holds for every other file
/// as it is.
pub proof fn lemma_scan_leaves_others(
    idx: IndexModel,
    path: Seq<char>,
    digest: Seq<u8>,
    mtime: i64,
    now: i64,
    fresh: Seq<DiagModel>,
    other: Seq<char>,
)
    requires
        idx.wf(),
        other != path,
    ensures
        scanned(idx, path, digest, mtime, now, fresh).file(other) == idx.file(other),
{
    if idx.needs_scan(path, digest, mtime) && idx.takes(path, issues_of(fresh)) {
        lemma_recorded_leaves_others(idx, path, digest, mtime, now, issues_of(fresh), other);
    }
}

/// The first `max` of the diagnostics, or all of them where no maximum is
/// set.
pub fn limit_results(diags: Vec<Diag>, max: Option<u32>) -> (r: Vec<Diag>)
    ensures
        r@ == match max {
            Some(m) => if m < diags@.len() {
                diags@.take(m as int)
            } else {
                diags@
            },
            None => diags@,
        },
{
    let mut r = diags;
    match max {
        Some(m) => {
            if (m as usize) < r.len() {
                r.truncate(m as usize);
            }
        },
        None => {},
    }
    r
}

/// How many of the first `k` diagnostics have the severity.
pub open spec fn count_of(diags: Seq<DiagModel>, s: Severity, k: int) -> int
    decreases k,
{
    if k <= 0 || k > diags.len() {
        0
    } else if diags[k - 1].severity == s {
        count_of(diags, s, k - 1) + 1
    } else {
        count_of(diags, s, k - 1)
    }
}

/// How many diagnostics there are of high, of medium and of low severity.
pub fn count_by_severity(diags: &Vec<Diag>) -> (r: (usize, usize, usize))
    ensures
        r.0 == count_of(diag_models(diags@), Severity::High, diags@.len() as int),
        r.1 == count_of(diag_models(diags@), Severity::Medium, diags@.len() as int),
        r.2 == count_of(diag_models(diags@), Severity::Low, diags@.len() as int),
        r.0 + r.1 + r.2 == diags@.len(),
{
    let ghost m = diag_models(diags@);
    let mut high: usize = 0;
    let mut medium: usize = 0;
    let mut low: usize = 0;
    let mut i: usize = 0;
    while i < diags.len()
        invariant
            i <= diags.len(),
            m == diag_models(diags@),
            high == count_of(m, Severity::High, i as int),
            medium == count_of(m, Severity::Medium, i as int),
            low == count_of(m, Severity::Low, i as int),
            high + medium + low == i,
        decreases diags.len() - i,
    {
        match diags[i].severity {
            Severity::High => {
                high += 1;
            },
            Severity::Medium => {
                medium += 1;
            },
            Severity::Low => {
                low += 1;
            },
        }
        i += 1;
    }
    (high, medium, low)
}

/// The paths do not go back: none comes before one that precedes it.
pub open spec fn by_path(s: Seq<DiagModel>) -> bool {
    forall|i: int, j: int|
        0 <= i < j < s.len() ==> !text_before((#[trigger] s[j]).path, (#[trigger] s[i]).path)
}

/// The first index at or after `j` whose path comes after that of `d`, or
/// the length.
pub open spec fn group_place(out: Seq<DiagModel>, d: DiagModel, j: int) -> int
    decreases out.len() - j,
{
    if 0 <= j < out.len() && !text_before(d.path, out[j].path) {
        group_place(out, d, j + 1)
    } else {
        j
    }
}

/// The first `k` diagnostics grouped by path: each is put behind those
/// whose path does not come after its own.
pub open spec fn grouped_upto(input: Seq<DiagModel>, k: int) -> Seq<DiagModel>
    decreases k,
{
    if k <= 0 || k > input.len() {
        Seq::empty()
    } else {
        let prev = grouped_upto(input, k - 1);
        let j = group_place(prev, input[k - 1], 0);
        if 0 <= j <= prev.len() {
            prev.insert(j, input[k - 1])
        } else {
            prev
        }
    }
}

proof fn lemma_group_insert(before: Seq<DiagModel>, j: int, d: DiagModel)
    requires
        by_path(before),
        0 <= j <= before.len(),
        forall|x: int| 0 <= x < j ==> !text_before(d.path, (#[trigger] before[x]).path),
        j < before.len() ==> text_before(d.path, before[j].path),
    ensures
        by_path(before.insert(j, d)),
{
    let now = before.insert(j, d);
    assert forall|x: int, y: int| 0 <= x < y < now.len() implies !text_before(
        (#[trigger] now[y]).path,
        (#[trigger] now[x]).path,
    ) by {
        if x == j && y > j && text_before(before[y - 1].path, d.path) {
            lemma_text_transitive(before[y - 1].path, d.path, before[j].path);
            if y - 1 == j {
                lemma_text_total(before[j].path, before[j].path);
            }
        }
    }
}

/// Groups diagnostics by path: the paths come in order, and the
/// diagnostics of one path keep the order in which they came. Nothing is
/// lost and nothing added.
pub fn group_by_path(diags: &Vec<Diag>) -> (out: Vec<Diag>)
    ensures
        diag_models(out@) == grouped_upto(diag_models(diags@), diags@.len() as int),
        by_path(diag_models(out@)),
        diag_models(out@).to_multiset() == diag_models(diags@).to_multiset(),
{
    let ghost input = diag_models(diags@);
    let mut out: Vec<Diag> = Vec::new();
    let mut k: usize = 0;
    assert(diag_models(out@) =~= Seq::<DiagModel>::empty());
    assert(input.take(0) =~= Seq::<DiagModel>::empty());
    while k < diags.len()
        invariant
            k <= diags.len(),
            input == diag_models(diags@),
            diag_models(out@) == grouped_upto(input, k as int),
            by_path(diag_models(out@)),
            diag_models(out@).to_multiset() == input.take(k as int).to_multiset(),
        decreases diags.len() - k,
    {
        let d = &diags[k];
        let ghost before = diag_models(out@);
        let mut j: usize = 0;
        while j < out.len() && place_of_text(d.path.as_str(), out[j].path.as_str())
            != Place::Before
            invariant
                j <= out.len(),
                before == diag_models(out@),
                forall|x: int| 0 <= x < j ==> !text_before(d@.path, (#[trigger] before[x]).path),
                group_place(before, d@, 0) == group_place(before, d@, j as int),
            decreases out.len() - j,
        {
            j += 1;
        }
        out.insert(j, d.clone());
        proof {
            assert(diag_models(out@) =~= before.insert(j as int, d@));
            lemma_group_insert(before, j as int, d@);
            vstd::seq_lib::to_multiset_insert(before, j as int, d@);
            assert(input.take(k + 1) =~= input.take(k as int).push(d@));
            vstd::seq_lib::to_multiset_build(input.take(k as int), d@);
        }
        k += 1;
    }
    assert(input.take(input.len() as int) =~= input);
    out
}

} // verus!
