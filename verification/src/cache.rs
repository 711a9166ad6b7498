//! The result cache: for each file of a project its content digest, its
//! modification time and the diagnostics of its last scan, so that a file
//! that did not change is not analysed again.

use crate::diag::{diag_models, Diag, DiagModel};
use crate::errors::NyxError;
use crate::patterns::Severity;
use crate::text::str_eq;
use vstd::prelude::*;
use vstd::string::StringExecFns;

verus! {

/// What `blake3::hash` gives for the bytes: their BLAKE3 digest.
pub uninterp spec fn blake3_digest(bytes: Seq<u8>) -> Seq<u8>;

/// `blake3::hash`: the digest of the bytes, which is 32 bytes long.
#[verifier::external_body]
fn blake3_hash(bytes: &[u8]) -> (r: Vec<u8>)
    ensures
        r@ == blake3_digest(bytes@),
        r@.len() == 32,
{
    blake3::hash(bytes).as_bytes().to_vec()
}

/// The content digest of a file.
pub fn digest_file(bytes: &[u8]) -> (r: Vec<u8>)
    ensures
        r@ == blake3_digest(bytes@),
        r@.len() == 32,
{
    blake3_hash(bytes)
}

/// A single issue row, ready for insertion.
#[derive(Debug, Clone)]
pub struct IssueRow<'a> {
    pub rule_id: &'a str,
    pub severity: &'a str,
    pub line: i64,
    pub col: i64,
}

/// An issue as mathematical data.
pub struct IssueModel {
    pub rule_id: Seq<char>,
    pub severity: Seq<char>,
    pub line: i64,
    pub col: i64,
}

impl<'a> View for IssueRow<'a> {
    type V = IssueModel;

    open spec fn view(&self) -> IssueModel {
        IssueModel {
            rule_id: self.rule_id@,
            severity: self.severity@,
            line: self.line,
            col: self.col,
        }
    }
}

/// Issue rows as mathematical data.
pub open spec fn issue_models(rows: Seq<IssueRow>) -> Seq<IssueModel> {
    Seq::new(rows.len(), |i: int| rows[i]@)
}

/// The row of a file as mathematical data, with the issues of the file.
pub struct FileModel {
    pub id: i64,
    pub path: Seq<char>,
    pub hash: Seq<u8>,
    pub mtime: i64,
    pub scanned_at: i64,
    pub issues: Seq<IssueModel>,
}

/// The cache of one project as mathematical data: the rows of its files in
/// the order in which they were first stored, and the identifier that the
/// next new file gets.
pub struct IndexModel {
    pub files: Seq<FileModel>,
    pub next_id: i64,
    pub summaries: Seq<SummaryModel>,
}

/// The stored summary of a function as mathematical data.
pub struct SummaryModel {
    pub hash: Seq<char>,
    pub name: Seq<char>,
    pub lang: Seq<char>,
    pub summary: Seq<char>,
    pub updated_at: i64,
}

/// The first index at or after `k` of a summary with this hash, or the
/// length.
pub open spec fn hash_index(rows: Seq<SummaryModel>, hash: Seq<char>, k: int) -> int
    decreases rows.len() - k,
{
    if 0 <= k < rows.len() && rows[k].hash != hash {
        hash_index(rows, hash, k + 1)
    } else {
        k
    }
}

/// The first index at or after `k` of a file with this path, or the length.
pub open spec fn path_index(files: Seq<FileModel>, path: Seq<char>, k: int) -> int
    decreases files.len() - k,
{
    if 0 <= k < files.len() && files[k].path != path {
        path_index(files, path, k + 1)
    } else {
        k
    }
}

/// The first index at or after `k` of a file with this identifier, or the
/// length.
pub open spec fn id_index(files: Seq<FileModel>, id: i64, k: int) -> int
    decreases files.len() - k,
{
    if 0 <= k < files.len() && files[k].id != id {
        id_index(files, id, k + 1)
    } else {
        k
    }
}

/// Two issues have the same key: the same rule at the same line and column.
pub open spec fn same_issue_key(a: IssueModel, b: IssueModel) -> bool {
    a.rule_id == b.rule_id && a.line == b.line && a.col == b.col
}

/// No two of the rows have the same key.
pub open spec fn keys_distinct(rows: Seq<IssueModel>) -> bool {
    forall|i: int, j: int|
        0 <= i < j < rows.len() ==> !same_issue_key(#[trigger] rows[i], #[trigger] rows[j])
}

impl IndexModel {
    /// Paths and identifiers are the file's own, identifiers are positive
    /// and below the next one, and the issues of a file have distinct keys.
    pub open spec fn wf(self) -> bool {
        &&& 1 <= self.next_id
        &&& forall|i: int, j: int|
            0 <= i < j < self.files.len() ==> (#[trigger] self.files[i]).path != (
            #[trigger] self.files[j]).path && self.files[i].id != self.files[j].id
        &&& forall|i: int|
            0 <= i < self.files.len() ==> 1 <= (#[trigger] self.files[i]).id < self.next_id
        &&& forall|i: int|
            0 <= i < self.files.len() ==> keys_distinct((#[trigger] self.files[i]).issues)
    }

    /// The row of the file at `path`, if it has one.
    pub open spec fn file(self, path: Seq<char>) -> Option<FileModel> {
        let i = path_index(self.files, path, 0);
        if 0 <= i < self.files.len() {
            Some(self.files[i])
        } else {
            None
        }
    }

    /// A file is scanned when it has no row or when its digest or its
    /// modification time differ from what the row holds.
    pub open spec fn needs_scan(self, path: Seq<char>, digest: Seq<u8>, mtime: i64) -> bool {
        match self.file(path) {
            Some(f) => f.hash != digest || f.mtime != mtime,
            None => true,
        }
    }

    /// The cache after the row of the file at `path` was inserted or
    /// updated. A file that has a row keeps its identifier and its issues.
    pub open spec fn upserted(
        self,
        path: Seq<char>,
        digest: Seq<u8>,
        mtime: i64,
        now: i64,
    ) -> IndexModel {
        let i = path_index(self.files, path, 0);
        if 0 <= i < self.files.len() {
            IndexModel {
                files: self.files.update(
                    i,
                    FileModel { hash: digest, mtime, scanned_at: now, ..self.files[i] },
                ),
                next_id: self.next_id,
                summaries: self.summaries,
            }
        } else {
            IndexModel {
                files: self.files.push(
                    FileModel {
                        id: self.next_id,
                        path,
                        hash: digest,
                        mtime,
                        scanned_at: now,
                        issues: Seq::empty(),
                    },
                ),
                next_id: (self.next_id + 1) as i64,
                summaries: self.summaries,
            }
        }
    }

    /// Whether the issues of the file with this identifier can be replaced
    /// by the rows: the rows have distinct keys, and the file exists unless
    /// there are no rows.
    pub open spec fn accepts(self, file_id: i64, rows: Seq<IssueModel>) -> bool {
        keys_distinct(rows) && (rows.len() == 0 || id_index(self.files, file_id, 0)
            < self.files.len())
    }

    /// The cache after the issues of the file with this identifier were
    /// replaced by the rows.
    pub open spec fn replaced(self, file_id: i64, rows: Seq<IssueModel>) -> IndexModel {
        let i = id_index(self.files, file_id, 0);
        if 0 <= i < self.files.len() {
            IndexModel {
                files: self.files.update(i, FileModel { issues: rows, ..self.files[i] }),
                next_id: self.next_id,
                summaries: self.summaries,
            }
        } else {
            self
        }
    }

    /// Whether the row of the file at `path` can be stored together with
    /// these issues: the file has a row or can get an identifier, and the
    /// issues have distinct keys.
    pub open spec fn takes(self, path: Seq<char>, rows: Seq<IssueModel>) -> bool {
        (self.file(path) is Some || self.next_id < i64::MAX) && keys_distinct(rows)
    }

    /// The cache after the scan of a file was recorded: the row of the file
    /// is stored and its issues are replaced by the rows, or, where the
    /// cache does not take that, nothing is changed.
    pub open spec fn recorded(
        self,
        path: Seq<char>,
        digest: Seq<u8>,
        mtime: i64,
        now: i64,
        rows: Seq<IssueModel>,
    ) -> IndexModel {
        if self.takes(path, rows) {
            let stored = self.upserted(path, digest, mtime, now);
            stored.replaced(stored.file(path)->0.id, rows)
        } else {
            self
        }
    }

    /// The cache after a summary was stored under its hash. A summary that
    /// is stored under the hash already gets the new text and time, and
    /// keeps its name and language.
    pub open spec fn with_summary(self, row: SummaryModel) -> IndexModel {
        let i = hash_index(self.summaries, row.hash, 0);
        if 0 <= i < self.summaries.len() {
            IndexModel {
                summaries: self.summaries.update(
                    i,
                    SummaryModel {
                        summary: row.summary,
                        updated_at: row.updated_at,
                        ..self.summaries[i]
                    },
                ),
                ..self
            }
        } else {
            IndexModel { summaries: self.summaries.push(row), ..self }
        }
    }

    /// The texts of the stored summaries, in the order of their rows.
    pub open spec fn summary_texts(self) -> Seq<Seq<char>> {
        Seq::new(self.summaries.len(), |i: int| self.summaries[i].summary)
    }

    /// The paths of the files, in the order of their rows.
    pub open spec fn paths(self) -> Seq<Seq<char>> {
        Seq::new(self.files.len(), |i: int| self.files[i].path)
    }
}

/// A line or column as it is read back: a negative number stands for zero,
/// and one that is too large for the largest that fits.
pub open spec fn position_of(x: i64) -> int {
    if x < 0 {
        0
    } else if x > usize::MAX {
        usize::MAX as int
    } else {
        x as int
    }
}

/// The diagnostic that an issue of the file at `path` is read back as.
pub open spec fn stored_diag(path: Seq<char>, issue: IssueModel) -> DiagModel {
    DiagModel {
        path,
        line: position_of(issue.line),
        col: position_of(issue.col),
        severity: Severity::named(issue.severity),
        id: issue.rule_id,
    }
}

/// The diagnostics that the issues of the file at `path` are read back as.
pub open spec fn stored_diags(path: Seq<char>, issues: Seq<IssueModel>) -> Seq<DiagModel> {
    Seq::new(issues.len(), |i: int| stored_diag(path, issues[i]))
}

/// A position as it is stored: one beyond the largest that can be stored is
/// stored as the largest.
pub open spec fn stored_position(x: int) -> i64 {
    if x > i64::MAX {
        i64::MAX
    } else {
        x as i64
    }
}

/// The row that a diagnostic is stored as.
pub open spec fn issue_of(d: DiagModel) -> IssueModel {
    IssueModel {
        rule_id: d.id,
        severity: d.severity.db_text(),
        line: stored_position(d.line),
        col: stored_position(d.col),
    }
}

/// The rows that diagnostics are stored as.
pub open spec fn issues_of(diags: Seq<DiagModel>) -> Seq<IssueModel> {
    Seq::new(diags.len(), |i: int| issue_of(diags[i]))
}

#[derive(Debug)]
struct StoredIssue {
    rule_id: String,
    severity: String,
    line: i64,
    col: i64,
}

#[derive(Debug)]
struct FileEntry {
    id: i64,
    path: String,
    hash: Vec<u8>,
    mtime: i64,
    scanned_at: i64,
    issues: Vec<StoredIssue>,
}

/// The stored summary of a function.
#[derive(Debug)]
pub struct SummaryRow {
    /// What the summary is stored under.
    pub hash: String,
    /// The name of the function.
    pub name: String,
    /// The extension of the file of the function.
    pub lang: String,
    /// The summary as text.
    pub summary: String,
    pub updated_at: i64,
}

impl View for SummaryRow {
    type V = SummaryModel;

    open spec fn view(&self) -> SummaryModel {
        SummaryModel {
            hash: self.hash@,
            name: self.name@,
            lang: self.lang@,
            summary: self.summary@,
            updated_at: self.updated_at,
        }
    }
}

#[derive(Debug)]
struct SummaryEntry {
    hash: String,
    name: String,
    lang: String,
    summary: String,
    updated_at: i64,
}

spec fn summary_model(e: SummaryEntry) -> SummaryModel {
    SummaryModel {
        hash: e.hash@,
        name: e.name@,
        lang: e.lang@,
        summary: e.summary@,
        updated_at: e.updated_at,
    }
}

spec fn stored_models(issues: Seq<StoredIssue>) -> Seq<IssueModel> {
    Seq::new(
        issues.len(),
        |i: int|
            IssueModel {
                rule_id: issues[i].rule_id@,
                severity: issues[i].severity@,
                line: issues[i].line,
                col: issues[i].col,
            },
    )
}

spec fn entry_model(e: FileEntry) -> FileModel {
    FileModel {
        id: e.id,
        path: e.path@,
        hash: e.hash@,
        mtime: e.mtime,
        scanned_at: e.scanned_at,
        issues: stored_models(e.issues@),
    }
}

/// The result cache of one project.
#[derive(Debug)]
pub struct Indexer {
    project: String,
    files: Vec<FileEntry>,
    next_id: i64,
    summaries: Vec<SummaryEntry>,
}

impl View for Indexer {
    type V = IndexModel;

    closed spec fn view(&self) -> IndexModel {
        IndexModel {
            files: Seq::new(self.files@.len(), |i: int| entry_model(self.files@[i])),
            next_id: self.next_id,
            summaries: Seq::new(self.summaries@.len(), |i: int| summary_model(self.summaries@[i])),
        }
    }
}

fn same_bytes(a: &Vec<u8>, b: &[u8]) -> (r: bool)
    ensures
        r == (a@ == b@),
{
    if a.len() != b.len() {
        return false;
    }
    let mut i: usize = 0;
    while i < a.len()
        invariant
            i <= a.len(),
            a.len() == b.len(),
            forall|k: int| 0 <= k < i ==> a@[k] == b@[k],
        decreases a.len() - i,
    {
        if a[i] != b[i] {
            return false;
        }
        i += 1;
    }
    assert(a@ =~= b@);
    true
}

fn copy_bytes(b: &[u8]) -> (r: Vec<u8>)
    ensures
        r@ == b@,
{
    let mut r: Vec<u8> = Vec::new();
    let mut i: usize = 0;
    while i < b.len()
        invariant
            i <= b.len(),
            r@ == b@.take(i as int),
        decreases b.len() - i,
    {
        r.push(b[i]);
        i += 1;
    }
    r
}

impl Indexer {
    /// The cache is well formed.
    pub open spec fn wf(&self) -> bool {
        self@.wf()
    }

    /// The project whose cache this is.
    pub closed spec fn project_name(&self) -> Seq<char> {
        self.project@
    }

    /// An empty cache for the project.
    pub fn new(project: &str) -> (idx: Indexer)
        ensures
            idx.wf(),
            idx@.files.len() == 0,
            idx@.summaries.len() == 0,
            idx@.next_id == 1,
            idx.project_name() == project@,
    {
        Indexer {
            project: project.to_owned(),
            files: Vec::new(),
            next_id: 1,
            summaries: Vec::new(),
        }
    }

    /// The project whose cache this is.
    pub fn project(&self) -> (p: &str)
        ensures
            p@ == self.project_name(),
    {
        self.project.as_str()
    }

    fn find_path(&self, path: &str) -> (i: usize)
        ensures
            i == path_index(self@.files, path@, 0),
            i <= self.files@.len(),
    {
        let mut i: usize = 0;
        while i < self.files.len() && !str_eq(self.files[i].path.as_str(), path)
            invariant
                i <= self.files@.len(),
                path_index(self@.files, path@, 0) == path_index(self@.files, path@, i as int),
            decreases self.files.len() - i,
        {
            i += 1;
        }
        i
    }

    fn find_id(&self, id: i64) -> (i: usize)
        ensures
            i == id_index(self@.files, id, 0),
            i <= self.files@.len(),
    {
        let mut i: usize = 0;
        while i < self.files.len() && self.files[i].id != id
            invariant
                i <= self.files@.len(),
                id_index(self@.files, id, 0) == id_index(self@.files, id, i as int),
            decreases self.files.len() - i,
        {
            i += 1;
        }
        i
    }

    /// Whether the file is to be scanned: it is when the cache has no row
    /// for it or when its digest or its modification time have changed.
    pub fn should_scan(&self, path: &str, digest: &[u8], mtime: i64) -> (r: bool)
        ensures
            r == self@.needs_scan(path@, digest@, mtime),
    {
        let i = self.find_path(path);
        if i < self.files.len() {
            !same_bytes(&self.files[i].hash, digest) || self.files[i].mtime != mtime
        } else {
            true
        }
    }

    /// The paths of the files of the cache.
    pub fn get_files(&self) -> (r: Vec<String>)
        ensures
            crate::text::texts(r@) == self@.paths(),
    {
        let mut r: Vec<String> = Vec::new();
        let mut i: usize = 0;
        while i < self.files.len()
            invariant
                i <= self.files@.len(),
                r@.len() == i,
                forall|j: int| 0 <= j < i ==> r@[j]@ == self@.files[j].path,
            decreases self.files.len() - i,
        {
            r.push(self.files[i].path.clone());
            i += 1;
        }
        r
    }

    /// Drops every row; identifiers begin anew.
    pub fn clear(&mut self)
        ensures
            final(self).wf(),
            final(self)@.files.len() == 0,
            final(self)@.summaries.len() == 0,
            final(self)@.next_id == 1,
            final(self).project_name() == old(self).project_name(),
    {
        self.files = Vec::new();
        self.summaries = Vec::new();
        self.next_id = 1;
    }

    /// Stores the summary of a function of the file at `path` under its
    /// hash, with the extension of the path for its language.
    pub fn upsert_summary(&mut self, path: &str, hash: &str, name: &str, summary: &str, now: i64)
        ensures
            final(self)@ == old(self)@.with_summary(
                SummaryModel {
                    hash: hash@,
                    name: name@,
                    lang: match crate::ext::extension_of(path@) {
                        Some(e) => e,
                        None => Seq::empty(),
                    },
                    summary: summary@,
                    updated_at: now,
                },
            ),
            final(self).project_name() == old(self).project_name(),
            old(self).wf() ==> final(self).wf(),
    {
        let lang = match crate::ext::extension(path) {
            Some(e) => e,
            None => String::new(),
        };
        self.put_summary(
            SummaryRow {
                hash: hash.to_owned(),
                name: name.to_owned(),
                lang,
                summary: summary.to_owned(),
                updated_at: now,
            },
        );
    }

    /// Stores a summary under its hash. A summary that is stored under the
    /// hash already gets the new text and time.
    pub fn put_summary(&mut self, row: SummaryRow)
        ensures
            final(self)@ == old(self)@.with_summary(row@),
            final(self).project_name() == old(self).project_name(),
            old(self).wf() ==> final(self).wf(),
    {
        let ghost before = self@;
        let ghost old_rows = self.summaries@;
        let mut i: usize = 0;
        while i < self.summaries.len() && !str_eq(
            self.summaries[i].hash.as_str(),
            row.hash.as_str(),
        )
            invariant
                i <= self.summaries@.len(),
                self@ == before,
                self.summaries@ == old_rows,
                hash_index(before.summaries, row.hash@, 0) == hash_index(
                    before.summaries,
                    row.hash@,
                    i as int,
                ),
            decreases self.summaries.len() - i,
        {
            i += 1;
        }
        let ghost want = before.with_summary(row@);
        if i < self.summaries.len() {
            let old_entry = self.summaries.remove(i);
            let entry = SummaryEntry {
                hash: old_entry.hash,
                name: old_entry.name,
                lang: old_entry.lang,
                summary: row.summary,
                updated_at: row.updated_at,
            };
            self.summaries.insert(i, entry);
            proof {
                assert(self@.summaries =~= want.summaries);
            }
        } else {
            self.summaries.push(
                SummaryEntry {
                    hash: row.hash,
                    name: row.name,
                    lang: row.lang,
                    summary: row.summary,
                    updated_at: row.updated_at,
                },
            );
            proof {
                assert(self@.summaries =~= want.summaries);
            }
        }
    }

    /// The stored summaries, in the order of their rows.
    pub fn summary_rows(&self) -> (rows: Vec<SummaryRow>)
        ensures
            rows@.len() == self@.summaries.len(),
            forall|i: int| 0 <= i < rows@.len() ==> (#[trigger] rows@[i])@ == self@.summaries[i],
    {
        let mut rows: Vec<SummaryRow> = Vec::new();
        let mut i: usize = 0;
        while i < self.summaries.len()
            invariant
                i <= self.summaries@.len(),
                rows@.len() == i,
                forall|j: int| 0 <= j < i ==> (#[trigger] rows@[j])@ == self@.summaries[j],
            decreases self.summaries.len() - i,
        {
            let e = &self.summaries[i];
            rows.push(
                SummaryRow {
                    hash: e.hash.clone(),
                    name: e.name.clone(),
                    lang: e.lang.clone(),
                    summary: e.summary.clone(),
                    updated_at: e.updated_at,
                },
            );
            i += 1;
        }
        rows
    }

    /// The texts of all stored summaries.
    pub fn load_all_summaries(&self) -> (r: Vec<String>)
        ensures
            crate::text::texts(r@) == self@.summary_texts(),
    {
        let mut r: Vec<String> = Vec::new();
        let mut i: usize = 0;
        while i < self.summaries.len()
            invariant
                i <= self.summaries@.len(),
                r@.len() == i,
                forall|j: int| 0 <= j < i ==> r@[j]@ == self@.summaries[j].summary,
            decreases self.summaries.len() - i,
        {
            r.push(self.summaries[i].summary.clone());
            i += 1;
        }
        r
    }
}


fn read_position(x: i64) -> (r: usize)
    ensures
        r as int == position_of(x),
{
    if x < 0 {
        0
    } else {
        let v: u64 = x as u64;
        if v > usize::MAX as u64 {
            usize::MAX
        } else {
            v as usize
        }
    }
}

fn store_position(x: usize) -> (r: i64)
    ensures
        r == stored_position(x as int),
{
    let v: u64 = x as u64;
    if v > 0x7fff_ffff_ffff_ffffu64 {
        0x7fff_ffff_ffff_ffffi64
    } else {
        v as i64
    }
}

/// The rows that diagnostics are stored as.
pub fn issue_rows<'a>(diags: &'a Vec<Diag>) -> (rows: Vec<IssueRow<'a>>)
    ensures
        issue_models(rows@) == issues_of(diag_models(diags@)),
{
    let mut rows: Vec<IssueRow<'a>> = Vec::new();
    let mut i: usize = 0;
    while i < diags.len()
        invariant
            i <= diags.len(),
            rows@.len() == i,
            forall|j: int| 0 <= j < i ==> (#[trigger] rows@[j])@ == issue_of(diags@[j]@),
        decreases diags.len() - i,
    {
        let d = &diags[i];
        rows.push(
            IssueRow {
                rule_id: d.id.as_str(),
                severity: d.severity.as_db_str(),
                line: store_position(d.line),
                col: store_position(d.col),
            },
        );
        i += 1;
    }
    rows
}

fn rows_distinct(rows: &Vec<IssueRow>) -> (r: bool)
    ensures
        r == keys_distinct(issue_models(rows@)),
{
    let ghost m = issue_models(rows@);
    let mut j: usize = 0;
    while j < rows.len()
        invariant
            j <= rows.len(),
            m == issue_models(rows@),
            forall|a: int, b: int| 0 <= a < b < j ==> !same_issue_key(#[trigger] m[a], #[trigger] m[b]),
        decreases rows.len() - j,
    {
        let mut i: usize = 0;
        while i < j
            invariant
                i <= j < rows.len(),
                m == issue_models(rows@),
                forall|a: int| 0 <= a < i ==> !same_issue_key(#[trigger] m[a], m[j as int]),
            decreases j - i,
        {
            if rows[i].line == rows[j].line && rows[i].col == rows[j].col && str_eq(
                rows[i].rule_id,
                rows[j].rule_id,
            ) {
                assert(same_issue_key(m[i as int], m[j as int]));
                return false;
            }
            i += 1;
        }
        j += 1;
    }
    true
}

impl Indexer {
    /// Inserts or updates the row of the file and returns its identifier,
    /// which a file keeps from its first row on. Fails only when a new file
    /// can get no identifier.
    pub fn upsert_file(&mut self, path: &str, digest: &[u8], mtime: i64, now: i64) -> (r: Result<
        i64,
        NyxError,
    >)
        ensures
            old(self).wf() ==> final(self).wf(),
            final(self).project_name() == old(self).project_name(),
            match r {
                Ok(id) => {
                    &&& old(self)@.file(path@) is Some || old(self)@.next_id < i64::MAX
                    &&& final(self)@ == old(self)@.upserted(path@, digest@, mtime, now)
                    &&& final(self)@.file(path@) matches Some(f) && f.id == id
                },
                Err(e) => {
                    &&& old(self)@.file(path@) is None
                    &&& old(self)@.next_id == i64::MAX
                    &&& final(self)@ == old(self)@
                    &&& e is Sql
                },
            },
    {
        let i = self.find_path(path);
        let ghost before = self@;
        let ghost old_files = self.files@;
        if i < self.files.len() {
            let old_entry = self.files.remove(i);
            let id = old_entry.id;
            let entry = FileEntry {
                id,
                path: old_entry.path,
                hash: copy_bytes(digest),
                mtime,
                scanned_at: now,
                issues: old_entry.issues,
            };
            self.files.insert(i, entry);
            proof {
                let want = before.upserted(path@, digest@, mtime, now);
                assert(self@.files =~= want.files);
                lemma_upserted(before, path@, digest@, mtime, now);
            }
            Ok(id)
        } else if self.next_id == i64::MAX {
            Err(NyxError::Sql(String::from_str("database or disk is full")))
        } else {
            let id = self.next_id;
            self.files.push(
                FileEntry {
                    id,
                    path: path.to_owned(),
                    hash: copy_bytes(digest),
                    mtime,
                    scanned_at: now,
                    issues: Vec::new(),
                },
            );
            self.next_id = id + 1;
            proof {
                let want = before.upserted(path@, digest@, mtime, now);
                assert forall|j: int| 0 <= j < self@.files.len() implies self@.files[j]
                    == want.files[j] by {
                    if j >= old_files.len() {
                        assert(entry_model(self.files@[j]).issues =~= Seq::<IssueModel>::empty());
                    }
                }
                assert(self@.files =~= want.files);
                lemma_upserted(before, path@, digest@, mtime, now);
            }
            Ok(id)
        }
    }

    /// Replaces all issues of the file with this identifier by the rows.
    /// Fails, and changes nothing, when two rows have the same rule, line
    /// and column, or when there are rows but no such file.
    pub fn replace_issues(&mut self, file_id: i64, rows: &Vec<IssueRow>) -> (r: Result<(), NyxError>)
        ensures
            old(self).wf() ==> final(self).wf(),
            final(self).project_name() == old(self).project_name(),
            match r {
                Ok(_) => {
                    &&& old(self)@.accepts(file_id, issue_models(rows@))
                    &&& final(self)@ == old(self)@.replaced(file_id, issue_models(rows@))
                },
                Err(e) => {
                    &&& !old(self)@.accepts(file_id, issue_models(rows@))
                    &&& final(self)@ == old(self)@
                    &&& e is Sql
                },
            },
    {
        if !rows_distinct(rows) {
            return Err(NyxError::Sql(String::from_str("UNIQUE constraint failed")));
        }
        let i = self.find_id(file_id);
        let ghost before = self@;
        if i >= self.files.len() {
            if rows.len() == 0 {
                return Ok(());
            }
            return Err(NyxError::Sql(String::from_str("FOREIGN KEY constraint failed")));
        }
        let mut issues: Vec<StoredIssue> = Vec::new();
        let mut k: usize = 0;
        while k < rows.len()
            invariant
                k <= rows.len(),
                issues@.len() == k,
                forall|j: int|
                    0 <= j < k ==> (#[trigger] issues@[j]).rule_id@ == rows@[j].rule_id@
                        && issues@[j].severity@ == rows@[j].severity@ && issues@[j].line
                        == rows@[j].line && issues@[j].col == rows@[j].col,
            decreases rows.len() - k,
        {
            issues.push(
                StoredIssue {
                    rule_id: rows[k].rule_id.to_owned(),
                    severity: rows[k].severity.to_owned(),
                    line: rows[k].line,
                    col: rows[k].col,
                },
            );
            k += 1;
        }
        assert(stored_models(issues@) =~= issue_models(rows@));
        let old_entry = self.files.remove(i);
        let entry = FileEntry {
            id: old_entry.id,
            path: old_entry.path,
            hash: old_entry.hash,
            mtime: old_entry.mtime,
            scanned_at: old_entry.scanned_at,
            issues,
        };
        self.files.insert(i, entry);
        proof {
            let want = before.replaced(file_id, issue_models(rows@));
            assert(self@.files =~= want.files);
            if before.wf() {
                lemma_replaced(before, file_id, issue_models(rows@));
            }
        }
        Ok(())
    }

    /// Records the scan of a file: stores the row of the file and replaces
    /// its issues by the rows, both or neither. Fails, and changes nothing,
    /// when two rows have the same rule, line and column, or when a new
    /// file can get no identifier. Returns the identifier of the file.
    pub fn record_scan(
        &mut self,
        path: &str,
        digest: &[u8],
        mtime: i64,
        now: i64,
        rows: &Vec<IssueRow>,
    ) -> (r: Result<i64, NyxError>)
        ensures
            old(self).wf() ==> final(self).wf(),
            final(self).project_name() == old(self).project_name(),
            final(self)@ == old(self)@.recorded(path@, digest@, mtime, now, issue_models(rows@)),
            match r {
                Ok(id) => {
                    &&& old(self)@.takes(path@, issue_models(rows@))
                    &&& id == old(self)@.upserted(path@, digest@, mtime, now).file(path@)->0.id
                },
                Err(e) => !old(self)@.takes(path@, issue_models(rows@)) && e is Sql,
            },
    {
        if !rows_distinct(rows) {
            return Err(NyxError::Sql(String::from_str("UNIQUE constraint failed")));
        }
        let id = match self.upsert_file(path, digest, mtime, now) {
            Ok(id) => id,
            Err(e) => {
                return Err(e);
            },
        };
        proof {
            let files = self@.files;
            let at = path_index(files, path@, 0);
            assert(files[at].id == id);
            lemma_id_index(files, id, 0);
        }
        match self.replace_issues(id, rows) {
            Ok(_) => Ok(id),
            Err(e) => Err(e),
        }
    }

    /// The diagnostics that the cache holds for the file at `path`. Fails
    /// when the cache has no row for the file.
    pub fn get_issues_from_file(&self, path: &str) -> (r: Result<Vec<Diag>, NyxError>)
        ensures
            match r {
                Ok(diags) => self@.file(path@) matches Some(f) && diag_models(diags@)
                    == stored_diags(path@, f.issues),
                Err(e) => self@.file(path@) is None && e is Sql,
            },
    {
        let i = self.find_path(path);
        if i >= self.files.len() {
            return Err(NyxError::Sql(String::from_str("Query returned no rows")));
        }
        let entry = &self.files[i];
        let ghost issues = stored_models(entry.issues@);
        let mut out: Vec<Diag> = Vec::new();
        let mut k: usize = 0;
        while k < entry.issues.len()
            invariant
                k <= entry.issues.len(),
                issues == stored_models(entry.issues@),
                out@.len() == k,
                forall|j: int| 0 <= j < k ==> (#[trigger] out@[j])@ == stored_diag(path@, issues[j]),
            decreases entry.issues.len() - k,
        {
            let s = &entry.issues[k];
            out.push(
                Diag {
                    path: path.to_owned(),
                    line: read_position(s.line),
                    col: read_position(s.col),
                    severity: Severity::parse(s.severity.as_str()),
                    id: s.rule_id.clone(),
                },
            );
            k += 1;
        }
        Ok(out)
    }
}

proof fn lemma_path_index(files: Seq<FileModel>, path: Seq<char>, k: int)
    requires
        0 <= k <= files.len(),
    ensures
        k <= path_index(files, path, k) <= files.len(),
        path_index(files, path, k) < files.len() ==> files[path_index(files, path, k)].path == path,
        forall|j: int| k <= j < path_index(files, path, k) ==> (#[trigger] files[j]).path != path,
    decreases files.len() - k,
{
    if k < files.len() && files[k].path != path {
        lemma_path_index(files, path, k + 1);
    }
}

proof fn lemma_path_index_is(files: Seq<FileModel>, path: Seq<char>, k: int, i: int)
    requires
        0 <= k <= i <= files.len(),
        forall|j: int| k <= j < i ==> (#[trigger] files[j]).path != path,
        i < files.len() ==> files[i].path == path,
    ensures
        path_index(files, path, k) == i,
    decreases files.len() - k,
{
    if k < i {
        lemma_path_index_is(files, path, k + 1, i);
    }
}

proof fn lemma_id_index(files: Seq<FileModel>, id: i64, k: int)
    requires
        0 <= k <= files.len(),
    ensures
        k <= id_index(files, id, k) <= files.len(),
        id_index(files, id, k) < files.len() ==> files[id_index(files, id, k)].id == id,
        forall|j: int| k <= j < id_index(files, id, k) ==> (#[trigger] files[j]).id != id,
    decreases files.len() - k,
{
    if k < files.len() && files[k].id != id {
        lemma_id_index(files, id, k + 1);
    }
}

proof fn lemma_id_index_is(files: Seq<FileModel>, id: i64, k: int, i: int)
    requires
        0 <= k <= i <= files.len(),
        forall|j: int| k <= j < i ==> (#[trigger] files[j]).id != id,
        i < files.len() ==> files[i].id == id,
    ensures
        id_index(files, id, k) == i,
    decreases files.len() - k,
{
    if k < i {
        lemma_id_index_is(files, id, k + 1, i);
    }
}

/// Inserting or updating a row keeps the cache well formed, and the row is
/// then that of the file.
pub proof fn lemma_upserted(idx: IndexModel, path: Seq<char>, digest: Seq<u8>, mtime: i64, now: i64)
    ensures
        idx.wf() && (idx.file(path) is Some || idx.next_id < i64::MAX) ==> idx.upserted(
            path,
            digest,
            mtime,
            now,
        ).wf(),
        idx.upserted(path, digest, mtime, now).file(path) matches Some(f) && f.hash == digest
            && f.mtime == mtime && f.scanned_at == now && f.path == path && (match idx.file(path) {
            Some(g) => f.id == g.id && f.issues == g.issues,
            None => f.id == idx.next_id && f.issues.len() == 0,
        }),
{
    let i = path_index(idx.files, path, 0);
    lemma_path_index(idx.files, path, 0);
    let after = idx.upserted(path, digest, mtime, now);
    lemma_path_index_is(after.files, path, 0, i);
}

/// Replacing the issues of a file keeps the cache well formed.
pub proof fn lemma_replaced(idx: IndexModel, file_id: i64, rows: Seq<IssueModel>)
    requires
        idx.wf(),
        keys_distinct(rows),
    ensures
        idx.replaced(file_id, rows).wf(),
{
    lemma_id_index(idx.files, file_id, 0);
}

/// After the row of a file was stored, the file is scanned again exactly
/// when its digest or its modification time is another.
pub proof fn lemma_stored_file_is_fresh(
    idx: IndexModel,
    path: Seq<char>,
    digest: Seq<u8>,
    mtime: i64,
    now: i64,
    other_digest: Seq<u8>,
    other_mtime: i64,
)
    requires
        idx.wf(),
        idx.file(path) is Some || idx.next_id < i64::MAX,
    ensures
        idx.upserted(path, digest, mtime, now).needs_scan(path, other_digest, other_mtime) <==> (
        other_digest != digest || other_mtime != mtime),
        !idx.upserted(path, digest, mtime, now).needs_scan(path, digest, mtime),
{
    lemma_upserted(idx, path, digest, mtime, now);
}

/// The issues that replaced those of a file are the issues of the file, and
/// the file is as fresh as it was.
pub proof fn lemma_replaced_issues_are_read(
    idx: IndexModel,
    path: Seq<char>,
    rows: Seq<IssueModel>,
)
    requires
        idx.wf(),
        idx.file(path) is Some,
        keys_distinct(rows),
    ensures
        idx.accepts(idx.file(path)->0.id, rows),
        idx.replaced(idx.file(path)->0.id, rows).file(path) matches Some(f) && f.issues == rows
            && f.hash == idx.file(path)->0.hash && f.mtime == idx.file(path)->0.mtime,
{
    let i = path_index(idx.files, path, 0);
    lemma_path_index(idx.files, path, 0);
    let id = idx.files[i].id;
    lemma_id_index_is(idx.files, id, 0, i);
    let after = idx.replaced(id, rows);
    lemma_path_index_is(after.files, path, 0, i);
}

/// A diagnostic of the file at `path` whose line and column can be stored
/// is read back as it was stored.
pub proof fn lemma_diag_reads_back(path: Seq<char>, d: DiagModel)
    requires
        d.path == path,
        0 <= d.line <= i64::MAX,
        0 <= d.col <= i64::MAX,
        d.line <= usize::MAX,
        d.col <= usize::MAX,
    ensures
        stored_diag(path, issue_of(d)) == d,
{
    crate::patterns::lemma_db_text_reads_back(d.severity);
}

/// What was found in a file and stored is what the cache holds for the file
/// as long as the file does not change: the file is not scanned again, and
/// its diagnostics are read back as they were found.
pub proof fn lemma_rescan_reads_back(
    idx: IndexModel,
    path: Seq<char>,
    digest: Seq<u8>,
    mtime: i64,
    now: i64,
    diags: Seq<DiagModel>,
)
    requires
        idx.wf(),
        idx.file(path) is Some || idx.next_id < i64::MAX,
        keys_distinct(issues_of(diags)),
        forall|i: int|
            0 <= i < diags.len() ==> (#[trigger] diags[i]).path == path && 0 <= diags[i].line
                <= i64::MAX && 0 <= diags[i].col <= i64::MAX && diags[i].line <= usize::MAX
                && diags[i].col <= usize::MAX,
    ensures
        ({
            let stored = idx.upserted(path, digest, mtime, now);
            let id = stored.file(path)->0.id;
            let filled = stored.replaced(id, issues_of(diags));
            &&& stored.accepts(id, issues_of(diags))
            &&& !filled.needs_scan(path, digest, mtime)
            &&& filled.file(path) matches Some(f) && stored_diags(path, f.issues) == diags
        }),
{
    lemma_upserted(idx, path, digest, mtime, now);
    let stored = idx.upserted(path, digest, mtime, now);
    lemma_replaced_issues_are_read(stored, path, issues_of(diags));
    let id = stored.file(path)->0.id;
    let filled = stored.replaced(id, issues_of(diags));
    let f = filled.file(path)->0;
    assert forall|i: int| 0 <= i < diags.len() implies stored_diags(path, f.issues)[i]
        == diags[i] by {
        lemma_diag_reads_back(path, diags[i]);
    }
}

/// Recording the scan of one file leaves the row of every other file as it
/// is.
pub proof fn lemma_recorded_leaves_others(
    idx: IndexModel,
    path: Seq<char>,
    digest: Seq<u8>,
    mtime: i64,
    now: i64,
    rows: Seq<IssueModel>,
    other: Seq<char>,
)
    requires
        idx.wf(),
        other != path,
    ensures
        idx.recorded(path, digest, mtime, now, rows).file(other) == idx.file(other),
{
    if idx.takes(path, rows) {
        lemma_upserted(idx, path, digest, mtime, now);
        let stored = idx.upserted(path, digest, mtime, now);
        let at = path_index(stored.files, path, 0);
        let id = stored.files[at].id;
        lemma_path_index(stored.files, path, 0);
        lemma_id_index_is(stored.files, id, 0, at);
        let after = stored.replaced(id, rows);
        let o = path_index(idx.files, other, 0);
        lemma_path_index(idx.files, other, 0);
        lemma_path_index(idx.files, path, 0);
        lemma_path_index_is(stored.files, other, 0, if o < idx.files.len() {
            o
        } else {
            stored.files.len() as int
        });
        lemma_path_index_is(after.files, other, 0, if o < idx.files.len() {
            o
        } else {
            after.files.len() as int
        });
    }
}

/// The row of a file as it is kept in storage, without its issues.
#[derive(Debug)]
pub struct FileRow {
    pub id: i64,
    pub path: String,
    pub hash: Vec<u8>,
    pub mtime: i64,
    pub scanned_at: i64,
}

/// Whether a row holds what the row of a file holds, but for its issues.
pub open spec fn row_of(row: FileRow, f: FileModel) -> bool {
    &&& row.id == f.id
    &&& row.path@ == f.path
    &&& row.hash@ == f.hash
    &&& row.mtime == f.mtime
    &&& row.scanned_at == f.scanned_at
}

impl IndexModel {
    /// Whether a row with this identifier and path can be put back: the
    /// identifier is one that a file can have, and no file has it or the
    /// path.
    pub open spec fn admits(self, id: i64, path: Seq<char>) -> bool {
        &&& 1 <= id < i64::MAX
        &&& path_index(self.files, path, 0) >= self.files.len()
        &&& id_index(self.files, id, 0) >= self.files.len()
    }

    /// The cache after a row was put back, without issues. New files get
    /// identifiers beyond it.
    pub open spec fn restored(
        self,
        id: i64,
        path: Seq<char>,
        hash: Seq<u8>,
        mtime: i64,
        scanned_at: i64,
    ) -> IndexModel {
        IndexModel {
            files: self.files.push(
                FileModel { id, path, hash, mtime, scanned_at, issues: Seq::empty() },
            ),
            next_id: if self.next_id > id {
                self.next_id
            } else {
                (id + 1) as i64
            },
            summaries: self.summaries,
        }
    }
}

impl Indexer {
    /// The rows of the files, in their order.
    pub fn file_rows(&self) -> (rows: Vec<FileRow>)
        ensures
            rows@.len() == self@.files.len(),
            forall|i: int| 0 <= i < rows@.len() ==> row_of(#[trigger] rows@[i], self@.files[i]),
    {
        let mut rows: Vec<FileRow> = Vec::new();
        let mut i: usize = 0;
        while i < self.files.len()
            invariant
                i <= self.files@.len(),
                rows@.len() == i,
                forall|j: int| 0 <= j < i ==> row_of(#[trigger] rows@[j], self@.files[j]),
            decreases self.files.len() - i,
        {
            let e = &self.files[i];
            rows.push(
                FileRow {
                    id: e.id,
                    path: e.path.clone(),
                    hash: copy_bytes(e.hash.as_slice()),
                    mtime: e.mtime,
                    scanned_at: e.scanned_at,
                },
            );
            i += 1;
        }
        rows
    }

    /// Puts a row back that was kept in storage. Fails, and changes
    /// nothing, when the cache holds its identifier or its path already or
    /// when the identifier is none that a file can have.
    pub fn restore_file(&mut self, row: FileRow) -> (r: Result<(), NyxError>)
        ensures
            old(self).wf() ==> final(self).wf(),
            final(self).project_name() == old(self).project_name(),
            match r {
                Ok(_) => {
                    &&& old(self)@.admits(row.id, row.path@)
                    &&& final(self)@ == old(self)@.restored(
                        row.id,
                        row.path@,
                        row.hash@,
                        row.mtime,
                        row.scanned_at,
                    )
                },
                Err(e) => !old(self)@.admits(row.id, row.path@) && final(self)@ == old(self)@ && e
                    is Sql,
            },
    {
        if row.id < 1 || row.id == i64::MAX {
            return Err(NyxError::Sql(String::from_str("datatype mismatch")));
        }
        if self.find_path(row.path.as_str()) < self.files.len() || self.find_id(row.id)
            < self.files.len() {
            return Err(NyxError::Sql(String::from_str("UNIQUE constraint failed")));
        }
        let ghost before = self@;
        let ghost old_files = self.files@;
        let id = row.id;
        self.files.push(
            FileEntry {
                id,
                path: row.path,
                hash: row.hash,
                mtime: row.mtime,
                scanned_at: row.scanned_at,
                issues: Vec::new(),
            },
        );
        if self.next_id <= id {
            self.next_id = id + 1;
        }
        proof {
            let want = before.restored(row.id, row.path@, row.hash@, row.mtime, row.scanned_at);
            assert forall|j: int| 0 <= j < self@.files.len() implies self@.files[j]
                == want.files[j] by {
                if j >= old_files.len() {
                    assert(entry_model(self.files@[j]).issues =~= Seq::<IssueModel>::empty());
                }
            }
            assert(self@.files =~= want.files);
            lemma_path_index(before.files, row.path@, 0);
            lemma_id_index(before.files, row.id, 0);
        }
        Ok(())
    }
}

} // verus!
