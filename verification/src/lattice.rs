//! The taint lattice: a state maps each variable to the capabilities that
//! it carries, and a variable that carries none is absent.

use crate::text::texts;
use crate::labels::Cap;
use crate::text::str_eq;
use vstd::prelude::*;

verus! {

/// The capabilities of a variable in a state; none when it is absent.
pub open spec fn caps_at(m: Map<Seq<char>, Cap>, name: Seq<char>) -> Cap {
    if m.contains_key(name) {
        m[name]
    } else {
        Cap { raw: 0 }
    }
}

/// The state in which `name` carries `caps`; the variable is dropped when
/// `caps` is empty.
pub open spec fn with_caps(m: Map<Seq<char>, Cap>, name: Seq<char>, caps: Cap) -> Map<
    Seq<char>,
    Cap,
> {
    if caps.raw == 0 {
        m.remove(name)
    } else {
        m.insert(name, caps)
    }
}

/// The union of the capabilities of the first `k` of `names`.
pub open spec fn joined_caps(m: Map<Seq<char>, Cap>, names: Seq<Seq<char>>, k: int) -> Cap
    decreases k,
{
    if k <= 0 || k > names.len() {
        Cap { raw: 0 }
    } else {
        joined_caps(m, names, k - 1).spec_union(caps_at(m, names[k - 1]))
    }
}

/// The union of the capabilities of all of `names`.
pub open spec fn join_all(m: Map<Seq<char>, Cap>, names: Seq<Seq<char>>) -> Cap {
    joined_caps(m, names, names.len() as int)
}

/// No stored variable is empty.
pub open spec fn canonical(m: Map<Seq<char>, Cap>) -> bool {
    forall|k: Seq<char>| m.contains_key(k) ==> (#[trigger] m[k]).raw != 0
}

#[derive(Debug)]
struct Entry {
    name: String,
    caps: Cap,
}

/// A taint state.
#[derive(Debug)]
pub struct Taint {
    entries: Vec<Entry>,
}

spec fn bits_of(entries: Seq<Entry>, name: Seq<char>) -> Cap
    decreases entries.len(),
{
    if entries.len() == 0 {
        Cap { raw: 0 }
    } else if entries.last().name@ == name {
        entries.last().caps
    } else {
        bits_of(entries.drop_last(), name)
    }
}

proof fn lemma_bits_absent(entries: Seq<Entry>, name: Seq<char>)
    requires
        forall|j: int| 0 <= j < entries.len() ==> (#[trigger] entries[j]).name@ != name,
    ensures
        bits_of(entries, name).raw == 0,
    decreases entries.len(),
{
    if entries.len() > 0 {
        lemma_bits_absent(entries.drop_last(), name);
    }
}

proof fn lemma_bits_update(entries: Seq<Entry>, i: int, e: Entry, k: Seq<char>)
    requires
        0 <= i < entries.len(),
        entries[i].name@ == e.name@,
        forall|j: int| i < j < entries.len() ==> (#[trigger] entries[j]).name@ != e.name@,
    ensures
        bits_of(entries.update(i, e), k) == if k == e.name@ {
            e.caps
        } else {
            bits_of(entries, k)
        },
    decreases entries.len(),
{
    let u = entries.update(i, e);
    if i == entries.len() - 1 {
        assert(u.drop_last() =~= entries.drop_last());
    } else {
        assert(u.drop_last() =~= entries.drop_last().update(i, e));
        lemma_bits_update(entries.drop_last(), i, e, k);
    }
}

impl View for Taint {
    type V = Map<Seq<char>, Cap>;

    closed spec fn view(&self) -> Map<Seq<char>, Cap> {
        Map::new(
            |k: Seq<char>| bits_of(self.entries@, k).raw != 0,
            |k: Seq<char>| bits_of(self.entries@, k),
        )
    }
}

impl Taint {
    /// Every state is canonical: it stores no empty variable.
    pub proof fn lemma_canonical(&self)
        ensures
            canonical(self@),
    {
    }

    proof fn lemma_caps_at(&self, name: Seq<char>)
        ensures
            caps_at(self@, name) == bits_of(self.entries@, name),
    {
    }

    /// The state in which no variable carries anything.
    pub fn new() -> (t: Taint)
        ensures
            t@ == Map::<Seq<char>, Cap>::empty(),
    {
        let t = Taint { entries: Vec::new() };
        t
    }

    /// The capabilities that `name` carries.
    pub fn get(&self, name: &str) -> (c: Cap)
        ensures
            c == caps_at(self@, name@),
    {
        proof {
            self.lemma_caps_at(name@);
        }
        let mut i: usize = self.entries.len();
        assert(self.entries@.take(i as int) =~= self.entries@);
        while i > 0
            invariant
                i <= self.entries.len(),
                bits_of(self.entries@, name@) == bits_of(self.entries@.take(i as int), name@),
            decreases i,
        {
            assert(self.entries@.take(i as int).drop_last() =~= self.entries@.take(i - 1));
            if str_eq(self.entries[i - 1].name.as_str(), name) {
                return self.entries[i - 1].caps;
            }
            i -= 1;
        }
        Cap::empty()
    }

    /// Lets `name` carry `caps`; an empty `caps` drops the variable.
    pub fn set(&mut self, name: &str, caps: Cap)
        ensures
            final(self)@ == with_caps(old(self)@, name@, caps),
    {
        let mut i: usize = self.entries.len();
        while i > 0 && !str_eq(self.entries[i - 1].name.as_str(), name)
            invariant
                i <= self.entries.len(),
                self.entries@ == old(self).entries@,
                forall|j: int| i <= j < self.entries.len() ==> (#[trigger] self.entries@[j]).name@
                    != name@,
            decreases i,
        {
            i -= 1;
        }
        let found: Option<usize> = if i > 0 {
            Some(i - 1)
        } else {
            None
        };
        let e = Entry { name: name.to_owned(), caps };
        match found {
            Some(at) => {
                proof {
                    assert forall|k: Seq<char>| #[trigger]
                        bits_of(self.entries@.update(at as int, e), k) == if k == name@ {
                            caps
                        } else {
                            bits_of(self.entries@, k)
                        } by {
                        lemma_bits_update(self.entries@, at as int, e, k);
                    }
                }
                self.entries.set(at, e);
            },
            None => {
                self.entries.push(e);
                assert(self.entries@.drop_last() =~= old(self).entries@);
            },
        }
    }

    /// The union of the capabilities that `names` carry.
    pub fn join(&self, names: &Vec<String>) -> (c: Cap)
        ensures
            c == join_all(self@, texts(names@)),
    {
        let mut c = Cap::empty();
        let mut i: usize = 0;
        while i < names.len()
            invariant
                i <= names.len(),
                c == joined_caps(self@, texts(names@), i as int),
            decreases names.len() - i,
        {
            let b = self.get(names[i].as_str());
            c = c.union(b);
            i += 1;
        }
        c
    }

    /// Whether two states are the same map.
    pub fn same(&self, other: &Taint) -> (r: bool)
        ensures
            r == (self@ == other@),
    {
        if !self.below(other) {
            return false;
        }
        if !other.below(self) {
            return false;
        }
        proof {
            assert forall|k: Seq<char>| bits_of(self.entries@, k) == bits_of(other.entries@, k) by {
                if (forall|j: int| 0 <= j < self.entries@.len() ==> self.entries@[j].name@ != k) && (
                forall|j: int| 0 <= j < other.entries@.len() ==> other.entries@[j].name@ != k) {
                    lemma_bits_absent(self.entries@, k);
                    lemma_bits_absent(other.entries@, k);
                }
            }
            assert(self@ =~= other@);
        }
        true
    }

    /// Whether every variable named in `self` carries the same in `other`.
    fn below(&self, other: &Taint) -> (r: bool)
        ensures
            r ==> forall|j: int|
                0 <= j < self.entries@.len() ==> bits_of(
                    self.entries@,
                    (#[trigger] self.entries@[j]).name@,
                ) == bits_of(other.entries@, self.entries@[j].name@),
            !r ==> self@ != other@,
    {
        let mut i: usize = 0;
        while i < self.entries.len()
            invariant
                i <= self.entries.len(),
                forall|j: int|
                    0 <= j < i ==> bits_of(self.entries@, (#[trigger] self.entries@[j]).name@)
                        == bits_of(other.entries@, self.entries@[j].name@),
            decreases self.entries.len() - i,
        {
            let name = self.entries[i].name.as_str();
            let a = self.get(name);
            let b = other.get(name);
            proof {
                self.lemma_caps_at(name@);
                other.lemma_caps_at(name@);
            }
            if a.raw != b.raw {
                return false;
            }
            i += 1;
        }
        true
    }

    /// A copy of the state.
    pub fn duplicate(&self) -> (t: Taint)
        ensures
            t@ == self@,
    {
        let mut entries: Vec<Entry> = Vec::new();
        let mut i: usize = 0;
        while i < self.entries.len()
            invariant
                i <= self.entries.len(),
                entries@.len() == i,
                forall|j: int|
                    0 <= j < i ==> (#[trigger] entries@[j]).name@ == self.entries@[j].name@
                        && entries@[j].caps == self.entries@[j].caps,
            decreases self.entries.len() - i,
        {
            entries.push(Entry { name: self.entries[i].name.clone(), caps: self.entries[i].caps });
            i += 1;
        }
        let t = Taint { entries };
        proof {
            assert forall|k: Seq<char>| bits_of(t.entries@, k) == bits_of(self.entries@, k) by {
                lemma_bits_same(t.entries@, self.entries@, k);
            }
        }
        t
    }
}

proof fn lemma_bits_same(a: Seq<Entry>, b: Seq<Entry>, k: Seq<char>)
    requires
        a.len() == b.len(),
        forall|j: int|
            0 <= j < a.len() ==> (#[trigger] a[j]).name@ == b[j].name@ && a[j].caps == b[j].caps,
    ensures
        bits_of(a, k) == bits_of(b, k),
    decreases a.len(),
{
    if a.len() > 0 {
        lemma_bits_same(a.drop_last(), b.drop_last(), k);
    }
}

} // verus!
