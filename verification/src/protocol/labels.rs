//! Labels: named values attached to an event, at most one per name and kind.

use vstd::prelude::*;
use vstd::string::*;

verus! {

/// No name occurs twice.
pub open spec fn distinct_names<V>(entries: Seq<(Seq<char>, V)>) -> bool {
    forall|i: int, j: int|
        #![trigger entries[i], entries[j]]
        0 <= i < j < entries.len() ==> entries[i].0 != entries[j].0
}

/// Whether a value is stored under `name`.
pub open spec fn has_name<V>(entries: Seq<(Seq<char>, V)>, name: Seq<char>) -> bool {
    exists|i: int| 0 <= i < entries.len() && (#[trigger] entries[i]).0 == name
}

/// The place of `name`.
pub open spec fn name_index<V>(entries: Seq<(Seq<char>, V)>, name: Seq<char>) -> int {
    choose|i: int| 0 <= i < entries.len() && (#[trigger] entries[i]).0 == name
}

/// The entries once `value` is stored under `name`: in its old place where the name is there
/// already, at the end else.
pub open spec fn stored<V>(entries: Seq<(Seq<char>, V)>, name: Seq<char>, value: V) -> Seq<
    (Seq<char>, V),
> {
    if has_name(entries, name) {
        entries.update(name_index(entries, name), (name, value))
    } else {
        entries.push((name, value))
    }
}

/// Values by name, in the order in which the names were first stored.
pub struct LabelMap<V> {
    entries: Vec<(String, V)>,
}

impl<V> View for LabelMap<V> {
    type V = Seq<(Seq<char>, V)>;

    closed spec fn view(&self) -> Seq<(Seq<char>, V)> {
        Seq::new(self.entries@.len(), |i: int| (self.entries@[i].0@, self.entries@[i].1))
    }
}

impl<V> LabelMap<V> {
    pub open spec fn wf(self) -> bool {
        distinct_names(self@)
    }

    /// A map without entries.
    pub fn new() -> (m: LabelMap<V>)
        ensures
            m.wf(),
            m@ == Seq::<(Seq<char>, V)>::empty(),
    {
        let m = LabelMap { entries: Vec::new() };
        assert(m@ =~= Seq::<(Seq<char>, V)>::empty());
        m
    }

    /// How many names there are.
    pub fn len(&self) -> (n: usize)
        ensures
            n == self@.len(),
    {
        self.entries.len()
    }

    /// The entry at the place `i`.
    pub fn entry(&self, i: usize) -> (e: (&str, &V))
        requires
            i < self@.len(),
        ensures
            e.0@ == self@[i as int].0,
            *e.1 == self@[i as int].1,
    {
        let e = &self.entries[i];
        (e.0.as_str(), &e.1)
    }

    /// Stores `value` under `name`. A value that was stored under the name before is replaced.
    pub fn insert(&mut self, name: String, value: V)
        requires
            old(self).wf(),
        ensures
            final(self).wf(),
            final(self)@ == stored(old(self)@, name@, value),
    {
        let mut i: usize = 0;
        while i < self.entries.len()
            invariant
                self.wf(),
                *self == *old(self),
                i <= self.entries@.len(),
                forall|k: int| 0 <= k < i ==> (#[trigger] self@[k]).0 != name@,
            decreases self.entries@.len() - i,
        {
            if self.entries[i].0 == name {
                proof {
                    assert(self@[i as int].0 == name@);
                    let at = name_index(self@, name@);
                    assert(at == i);
                }
                self.entries.set(i, (name, value));
                assert(self@ =~= old(self)@.update(i as int, (name@, value)));
                assert(self.wf());
                return;
            }
            assert(self@[i as int].0 != name@);
            i += 1;
        }
        self.entries.push((name, value));
        proof {
            assert(!has_name(old(self)@, name@));
            assert(self@ =~= old(self)@.push((name@, value)));
        }
    }
}

/// The same texts under the same names.
fn copied_texts(m: &LabelMap<String>) -> (out: LabelMap<String>)
    ensures
        out@ == m@,
{
    let mut entries: Vec<(String, String)> = Vec::new();
    let mut i: usize = 0;
    while i < m.entries.len()
        invariant
            i <= m.entries@.len(),
            entries@.len() == i,
            forall|k: int| 0 <= k < i ==> #[trigger] entries@[k] == m.entries@[k],
        decreases m.entries@.len() - i,
    {
        entries.push((m.entries[i].0.clone(), m.entries[i].1.clone()));
        i += 1;
    }
    let out = LabelMap { entries };
    assert(out@ =~= m@);
    out
}

/// The same values under the same names.
fn copied_values<V: Copy>(m: &LabelMap<V>) -> (out: LabelMap<V>)
    ensures
        out@ == m@,
{
    let mut entries: Vec<(String, V)> = Vec::new();
    let mut i: usize = 0;
    while i < m.entries.len()
        invariant
            i <= m.entries@.len(),
            entries@.len() == i,
            forall|k: int| 0 <= k < i ==> #[trigger] entries@[k] == m.entries@[k],
        decreases m.entries@.len() - i,
    {
        entries.push((m.entries[i].0.clone(), m.entries[i].1));
        i += 1;
    }
    let out = LabelMap { entries };
    assert(out@ =~= m@);
    out
}

/// The labels of an event. Floating-point values are carried by their bit patterns.
pub struct Labels {
    pub strings: LabelMap<String>,
    pub ints: LabelMap<i64>,
    pub bools: LabelMap<bool>,
    pub floats: LabelMap<u64>,
}

impl Labels {
    pub open spec fn wf(self) -> bool {
        &&& self.strings.wf()
        &&& self.ints.wf()
        &&& self.bools.wf()
        &&& self.floats.wf()
    }

    /// No labels.
    pub open spec fn is_empty(self) -> bool {
        &&& self.strings@.len() == 0
        &&& self.ints@.len() == 0
        &&& self.bools@.len() == 0
        &&& self.floats@.len() == 0
    }

    /// No labels.
    pub fn new() -> (l: Labels)
        ensures
            l.wf(),
            l.is_empty(),
    {
        Labels {
            strings: LabelMap::new(),
            ints: LabelMap::new(),
            bools: LabelMap::new(),
            floats: LabelMap::new(),
        }
    }

    /// The same labels.
    pub open spec fn same(self, other: Labels) -> bool {
        &&& self.strings@ == other.strings@
        &&& self.ints@ == other.ints@
        &&& self.bools@ == other.bools@
        &&& self.floats@ == other.floats@
    }

    /// The same labels once more.
    pub fn copied(&self) -> (l: Labels)
        ensures
            l.same(*self),
            self.wf() ==> l.wf(),
    {
        Labels {
            strings: copied_texts(&self.strings),
            ints: copied_values(&self.ints),
            bools: copied_values(&self.bools),
            floats: copied_values(&self.floats),
        }
    }
}

impl Default for Labels {
    fn default() -> (l: Labels)
        ensures
            l.wf(),
            l.is_empty(),
    {
        Labels::new()
    }
}

} // verus!
