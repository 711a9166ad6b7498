//! Diagnostics and their normal form: ordered by line, column, rule and
//! severity, with no two alike.

use crate::patterns::Severity;
use vstd::prelude::*;
use crate::text::{lemma_text_total, lemma_text_transitive, place_of_text, text_before, Place};

verus! {

/// One finding in one file. Lines and columns count from one. Two findings
/// are equal when all their fields are.
#[derive(Debug, PartialEq, Eq)]
pub struct Diag {
    pub path: String,
    pub line: usize,
    pub col: usize,
    pub severity: Severity,
    pub id: String,
}

/// A diagnostic as mathematical data.
pub struct DiagModel {
    pub path: Seq<char>,
    pub line: int,
    pub col: int,
    pub severity: Severity,
    pub id: Seq<char>,
}

impl View for Diag {
    type V = DiagModel;

    open spec fn view(&self) -> DiagModel {
        DiagModel {
            path: self.path@,
            line: self.line as int,
            col: self.col as int,
            severity: self.severity,
            id: self.id@,
        }
    }
}

impl Clone for Diag {
    fn clone(&self) -> (r: Self)
        ensures
            r@ == self@,
    {
        Diag {
            path: self.path.clone(),
            line: self.line,
            col: self.col,
            severity: self.severity,
            id: self.id.clone(),
        }
    }
}

/// Diagnostics as mathematical data.
pub open spec fn diag_models(v: Seq<Diag>) -> Seq<DiagModel> {
    Seq::new(v.len(), |i: int| v[i]@)
}

impl DiagModel {
    /// What decides the place of a diagnostic and whether two are alike:
    /// line, column, rule and severity.
    pub open spec fn same_key(self, other: DiagModel) -> bool {
        self.line == other.line && self.col == other.col && self.id == other.id && self.severity
            == other.severity
    }

    /// Whether `self` comes before `other`: by line, then column, then rule,
    /// then severity.
    pub open spec fn before(self, other: DiagModel) -> bool {
        if self.line != other.line {
            self.line < other.line
        } else if self.col != other.col {
            self.col < other.col
        } else if self.id != other.id {
            text_before(self.id, other.id)
        } else {
            self.severity.rank() < other.severity.rank()
        }
    }
}

/// Of two diagnostics that are not alike, one comes before the other, and
/// never both.
pub proof fn lemma_order_total(a: DiagModel, b: DiagModel)
    ensures
        a.same_key(b) || a.before(b) || b.before(a),
        !(a.before(b) && b.before(a)),
        a.same_key(b) ==> !a.before(b),
{
    lemma_text_total(a.id, b.id);
}

/// The order of diagnostics is transitive.
pub proof fn lemma_order_transitive(a: DiagModel, b: DiagModel, c: DiagModel)
    requires
        a.before(b),
        b.before(c),
    ensures
        a.before(c),
{
    lemma_text_total(a.id, b.id);
    lemma_text_total(b.id, c.id);
    lemma_text_total(a.id, c.id);
    if a.line == b.line && b.line == c.line && a.col == b.col && b.col == c.col {
        if a.id != b.id && b.id != c.id {
            lemma_text_transitive(a.id, b.id, c.id);
        }
    }
}

/// The diagnostics are in order, each before the next.
pub open spec fn ordered(s: Seq<DiagModel>) -> bool {
    forall|i: int, j: int| 0 <= i < j < s.len() ==> (#[trigger] s[i]).before(#[trigger] s[j])
}

fn rank_of(s: Severity) -> (r: u8)
    ensures
        r as int == s.rank(),
{
    match s {
        Severity::High => 0,
        Severity::Medium => 1,
        Severity::Low => 2,
    }
}

/// Where `a` stands to `b` in the order of diagnostics.
pub fn place_of(a: &Diag, b: &Diag) -> (r: Place)
    ensures
        r == Place::Before <==> a@.before(b@),
        r == Place::Same <==> a@.same_key(b@),
        r == Place::After <==> b@.before(a@),
{
    proof {
        lemma_order_total(a@, b@);
        lemma_order_total(b@, a@);
    }
    if a.line != b.line {
        if a.line < b.line {
            Place::Before
        } else {
            Place::After
        }
    } else if a.col != b.col {
        if a.col < b.col {
            Place::Before
        } else {
            Place::After
        }
    } else {
        match place_of_text(a.id.as_str(), b.id.as_str()) {
            Place::Before => Place::Before,
            Place::After => Place::After,
            Place::Same => {
                let x = rank_of(a.severity);
                let y = rank_of(b.severity);
                if x < y {
                    Place::Before
                } else if x > y {
                    Place::After
                } else {
                    Place::Same
                }
            },
        }
    }
}

/// The first of the first `k` diagnostics that is like `d`, if there is one.
pub open spec fn first_like(s: Seq<DiagModel>, d: DiagModel, k: int) -> Option<int>
    decreases k,
{
    if k <= 0 || k > s.len() {
        None
    } else {
        match first_like(s, d, k - 1) {
            Some(i) => Some(i),
            None => if s[k - 1].same_key(d) {
                Some(k - 1)
            } else {
                None
            },
        }
    }
}

/// Whether `d` is, among the first `k` of `input`, the first of those that
/// are like it.
pub open spec fn is_first(input: Seq<DiagModel>, k: int, d: DiagModel) -> bool {
    match first_like(input, d, k) {
        Some(i) => input[i] == d,
        None => false,
    }
}

/// `out` is the normal form of the first `k` of `input`: it is in order,
/// and it holds, of each group of diagnostics that are alike, the one that
/// comes first in `input`, and nothing else.
pub open spec fn normal_form(input: Seq<DiagModel>, k: int, out: Seq<DiagModel>) -> bool {
    &&& ordered(out)
    &&& forall|j: int| 0 <= j < out.len() ==> is_first(input, k, #[trigger] out[j])
    &&& forall|i: int|
        0 <= i < k ==> first_like(out, #[trigger] input[i], out.len() as int) is Some
}

/// No two diagnostics of a list in order are alike.
pub proof fn lemma_ordered_distinct(s: Seq<DiagModel>)
    requires
        ordered(s),
    ensures
        forall|i: int, j: int|
            0 <= i < s.len() && 0 <= j < s.len() && i != j ==> !(#[trigger] s[i]).same_key(
                #[trigger] s[j],
            ),
{
}


proof fn lemma_first_like(s: Seq<DiagModel>, d: DiagModel, k: int)
    requires
        0 <= k <= s.len(),
    ensures
        match first_like(s, d, k) {
            Some(i) => 0 <= i < k && s[i].same_key(d) && forall|x: int|
                0 <= x < i ==> !(#[trigger] s[x]).same_key(d),
            None => forall|x: int| 0 <= x < k ==> !(#[trigger] s[x]).same_key(d),
        },
    decreases k,
{
    if k > 0 {
        lemma_first_like(s, d, k - 1);
    }
}

/// A diagnostic that is like one already held leaves the normal form as it
/// is.
proof fn lemma_normal_skip(input: Seq<DiagModel>, k: int, out: Seq<DiagModel>, j: int)
    requires
        0 <= k < input.len(),
        normal_form(input, k, out),
        0 <= j < out.len(),
        out[j].same_key(input[k]),
    ensures
        normal_form(input, k + 1, out),
{
    assert forall|i: int| 0 <= i < k + 1 implies first_like(
        out,
        #[trigger] input[i],
        out.len() as int,
    ) is Some by {
        if i == k {
            lemma_first_like(out, input[k], out.len() as int);
        }
    }
}

/// A diagnostic that comes after the first `j` of the list and before the
/// rest is like none of them.
proof fn lemma_gap_is_new(before: Seq<DiagModel>, j: int, d: DiagModel)
    requires
        ordered(before),
        0 <= j <= before.len(),
        forall|x: int| 0 <= x < j ==> (#[trigger] before[x]).before(d),
        j < before.len() ==> d.before(before[j]),
    ensures
        forall|x: int| 0 <= x < before.len() ==> !(#[trigger] before[x]).same_key(d),
        forall|x: int| j <= x < before.len() ==> d.before(#[trigger] before[x]),
{
    assert forall|x: int| j <= x < before.len() implies d.before(#[trigger] before[x]) by {
        if x > j {
            lemma_order_transitive(d, before[j], before[x]);
        }
    }
}

/// Putting a new diagnostic into its place keeps the list in order.
proof fn lemma_insert_ordered(before: Seq<DiagModel>, j: int, d: DiagModel)
    requires
        ordered(before),
        0 <= j <= before.len(),
        forall|x: int| 0 <= x < j ==> (#[trigger] before[x]).before(d),
        forall|x: int| j <= x < before.len() ==> d.before(#[trigger] before[x]),
    ensures
        ordered(before.insert(j, d)),
{
}

/// Putting a diagnostic that is like none held into its place gives the
/// normal form of one diagnostic more.
proof fn lemma_normal_insert(input: Seq<DiagModel>, k: int, before: Seq<DiagModel>, j: int)
    requires
        0 <= k < input.len(),
        normal_form(input, k, before),
        0 <= j <= before.len(),
        ordered(before.insert(j, input[k])),
        forall|x: int| 0 <= x < before.len() ==> !(#[trigger] before[x]).same_key(input[k]),
    ensures
        normal_form(input, k + 1, before.insert(j, input[k])),
{
    let d = input[k];
    let now = before.insert(j, d);
    lemma_first_like(input, d, k);
    assert(first_like(input, d, k) is None) by {
        if first_like(input, d, k) is Some {
            let i = first_like(input, d, k)->0;
            lemma_first_like(before, input[i], before.len() as int);
            let x = first_like(before, input[i], before.len() as int)->0;
        }
    }
    assert forall|i: int| 0 <= i < k + 1 implies first_like(
        now,
        #[trigger] input[i],
        now.len() as int,
    ) is Some by {
        lemma_first_like(now, input[i], now.len() as int);
        if i == k {
            assert(now[j].same_key(input[i]));
        } else {
            lemma_first_like(before, input[i], before.len() as int);
            let y = first_like(before, input[i], before.len() as int)->0;
            let x = if y < j {
                y
            } else {
                y + 1
            };
            assert(now[x].same_key(input[i]));
        }
    }
}

/// The first index at or after `j` whose diagnostic does not come before
/// `d`, or the length.
pub open spec fn place_in(out: Seq<DiagModel>, d: DiagModel, j: int) -> int
    decreases out.len() - j,
{
    if 0 <= j < out.len() && out[j].before(d) {
        place_in(out, d, j + 1)
    } else {
        j
    }
}

/// The normal form of the first `k` of `input`, built by putting each
/// diagnostic that is like none before it into its place.
pub open spec fn normal_upto(input: Seq<DiagModel>, k: int) -> Seq<DiagModel>
    decreases k,
{
    if k <= 0 || k > input.len() {
        Seq::empty()
    } else {
        let prev = normal_upto(input, k - 1);
        let d = input[k - 1];
        let j = place_in(prev, d, 0);
        if 0 <= j < prev.len() && prev[j].same_key(d) {
            prev
        } else if 0 <= j <= prev.len() {
            prev.insert(j, d)
        } else {
            prev
        }
    }
}

/// The normal form of `input`.
pub open spec fn normal(input: Seq<DiagModel>) -> Seq<DiagModel> {
    normal_upto(input, input.len() as int)
}

/// The normal form holds nothing but diagnostics of the input.
pub proof fn lemma_normal_members(input: Seq<DiagModel>, k: int)
    ensures
        forall|j: int|
            0 <= j < normal_upto(input, k).len() ==> input.contains(
                #[trigger] normal_upto(input, k)[j],
            ),
    decreases k,
{
    if 0 < k <= input.len() {
        lemma_normal_members(input, k - 1);
        let prev = normal_upto(input, k - 1);
        let now = normal_upto(input, k);
        let at = place_in(prev, input[k - 1], 0);
        assert forall|j: int| 0 <= j < now.len() implies input.contains(#[trigger] now[j]) by {
            if now != prev {
                if j < at {
                    assert(now[j] == prev[j]);
                } else if j == at {
                    assert(now[j] == input[k - 1]);
                } else {
                    assert(now[j] == prev[j - 1]);
                }
            }
        }
    }
}

/// Brings diagnostics into their normal form: in order by line, column,
/// rule and severity, and of those that are alike only the first.
pub fn normalize(diags: &Vec<Diag>) -> (out: Vec<Diag>)
    ensures
        diag_models(out@) == normal(diag_models(diags@)),
        normal_form(diag_models(diags@), diags@.len() as int, diag_models(out@)),
        forall|i: int, j: int|
            0 <= i < out@.len() && 0 <= j < out@.len() && i != j ==> !(#[trigger] out@[i]@).same_key(
                #[trigger] out@[j]@,
            ),
{
    let ghost input = diag_models(diags@);
    let mut out: Vec<Diag> = Vec::new();
    let mut k: usize = 0;
    while k < diags.len()
        invariant
            k <= diags.len(),
            input == diag_models(diags@),
            normal_form(input, k as int, diag_models(out@)),
            diag_models(out@) == normal_upto(input, k as int),
        decreases diags.len() - k,
    {
        let d = &diags[k];
        let ghost before = diag_models(out@);
        let mut j: usize = 0;
        while j < out.len() && place_of(&out[j], d) == Place::Before
            invariant
                j <= out.len(),
                before == diag_models(out@),
                forall|x: int| 0 <= x < j ==> (#[trigger] before[x]).before(d@),
                place_in(before, d@, 0) == place_in(before, d@, j as int),
            decreases out.len() - j,
        {
            j += 1;
        }
        let alike = j < out.len() && place_of(&out[j], d) == Place::Same;
        if alike {
            proof {
                lemma_normal_skip(input, k as int, before, j as int);
            }
        } else {
            let copy = d.clone();
            out.insert(j, copy);
            proof {
                assert(diag_models(out@) =~= before.insert(j as int, d@));
                if j < before.len() {
                    lemma_order_total(before[j as int], d@);
                }
                lemma_gap_is_new(before, j as int, d@);
                lemma_insert_ordered(before, j as int, d@);
                lemma_normal_insert(input, k as int, before, j as int);
            }
        }
        k += 1;
    }
    proof {
        lemma_ordered_distinct(diag_models(out@));
        assert forall|i: int, j: int|
            0 <= i < out@.len() && 0 <= j < out@.len() && i != j implies !(#[trigger] out@[i]@).same_key(
            #[trigger] out@[j]@,
        ) by {
            assert(diag_models(out@)[i] == out@[i]@);
            assert(diag_models(out@)[j] == out@[j]@);
        }
    }
    out
}

} // verus!
