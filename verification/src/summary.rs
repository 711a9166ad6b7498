//! Function summaries: what a function does to capabilities, in one label.

use crate::labels::DataLabel;
use crate::text::str_eq;
use vstd::prelude::*;

verus! {

/// The summary of one function: the indices of its entry and exit nodes and
/// the label that stands for its body.
#[derive(Debug, Clone, Copy, PartialEq, Eq, Structural)]
pub struct FuncSummary {
    pub entry: usize,
    pub exit: usize,
    pub label: Option<DataLabel>,
}

#[derive(Debug)]
struct Named {
    name: String,
    summary: FuncSummary,
}

/// The summaries of the functions of one file, by function name. A later
/// summary of a name replaces an earlier one.
#[derive(Debug)]
pub struct FuncSummaries {
    entries: Vec<Named>,
}

spec fn map_of(entries: Seq<Named>) -> Map<Seq<char>, FuncSummary>
    decreases entries.len(),
{
    if entries.len() == 0 {
        Map::empty()
    } else {
        map_of(entries.drop_last()).insert(entries.last().name@, entries.last().summary)
    }
}

impl View for FuncSummaries {
    type V = Map<Seq<char>, FuncSummary>;

    closed spec fn view(&self) -> Map<Seq<char>, FuncSummary> {
        map_of(self.entries@)
    }
}

impl FuncSummaries {
    pub fn new() -> (s: FuncSummaries)
        ensures
            s@ == Map::<Seq<char>, FuncSummary>::empty(),
    {
        FuncSummaries { entries: Vec::new() }
    }

    /// Records the summary of `name`.
    pub fn insert(&mut self, name: String, summary: FuncSummary)
        ensures
            final(self)@ == old(self)@.insert(name@, summary),
    {
        self.entries.push(Named { name, summary });
        assert(self.entries@.drop_last() =~= old(self).entries@);
    }

    /// The summary of `name`, if one was recorded.
    pub fn get(&self, name: &str) -> (r: Option<FuncSummary>)
        ensures
            match r {
                Some(s) => self@.contains_key(name@) && self@[name@] == s,
                None => !self@.contains_key(name@),
            },
    {
        let mut i: usize = self.entries.len();
        assert(self.entries@.take(i as int) =~= self.entries@);
        while i > 0
            invariant
                i <= self.entries.len(),
                map_of(self.entries@).contains_key(name@) == map_of(
                    self.entries@.take(i as int),
                ).contains_key(name@),
                map_of(self.entries@).contains_key(name@) ==> map_of(self.entries@)[name@]
                    == map_of(self.entries@.take(i as int))[name@],
            decreases i,
        {
            assert(self.entries@.take(i as int).drop_last() =~= self.entries@.take(i - 1));
            if str_eq(self.entries[i - 1].name.as_str(), name) {
                return Some(self.entries[i - 1].summary);
            }
            i -= 1;
        }
        None
    }
}

} // verus!
