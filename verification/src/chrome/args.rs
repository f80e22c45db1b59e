//! Arguments of trace events.

use crate::protocol::labels;
use crate::protocol::labels::{LabelMap, Labels};
use crate::protocol::laws;
use crate::text::same_text;
use vstd::prelude::*;
use vstd::string::*;

verus! {

/// The value of an argument. Floating-point values are carried by their bit patterns.
pub enum ArgValue {
    Text(String),
    Int(i64),
    Float(u64),
    Bool(bool),
}

/// What a value is.
#[verifier::ext_equal]
pub enum ArgView {
    Text(Seq<char>),
    Int(i64),
    Float(u64),
    Bool(bool),
}

impl View for ArgValue {
    type V = ArgView;

    open spec fn view(&self) -> ArgView {
        match *self {
            ArgValue::Text(t) => ArgView::Text(t@),
            ArgValue::Int(n) => ArgView::Int(n),
            ArgValue::Float(bits) => ArgView::Float(bits),
            ArgValue::Bool(b) => ArgView::Bool(b),
        }
    }
}

/// Values by name.
pub struct Args {
    entries: LabelMap<ArgValue>,
}

impl View for Args {
    type V = Map<Seq<char>, ArgView>;

    closed spec fn view(&self) -> Map<Seq<char>, ArgView> {
        Map::new(
            |n: Seq<char>| labels::has_name(self.entries@, n),
            |n: Seq<char>| self.entries@[labels::name_index(self.entries@, n)].1@,
        )
    }
}

impl Args {
    pub closed spec fn wf(self) -> bool {
        self.entries.wf()
    }

    /// No arguments.
    pub fn new() -> (a: Args)
        ensures
            a.wf(),
            a@ == Map::<Seq<char>, ArgView>::empty(),
    {
        let a = Args { entries: LabelMap::new() };
        assert(a@ =~= Map::<Seq<char>, ArgView>::empty());
        a
    }

    /// Stores `value` under `name`. A value that was stored under the name before is replaced.
    pub fn insert(&mut self, name: &str, value: ArgValue)
        requires
            old(self).wf(),
        ensures
            final(self).wf(),
            final(self)@ == old(self)@.insert(name@, value@),
    {
        let ghost before = self.entries@;
        let ghost v = value;
        self.entries.insert(name.to_owned(), value);
        proof {
            assert forall|n: Seq<char>|
                (#[trigger] self@.contains_key(n) <==> old(self)@.insert(name@, v@).contains_key(n))
                    && (self@.contains_key(n) ==> self@[n] == old(self)@.insert(
                    name@,
                    v@,
                )[n]) by {
                laws::stored_label_is_found(before, name@, v, n);
            }
            assert(self@ =~= old(self)@.insert(name@, v@));
        }
    }

    /// Whether there are no arguments.
    pub fn is_empty(&self) -> (b: bool)
        ensures
            b <==> self@ == Map::<Seq<char>, ArgView>::empty(),
    {
        let b: bool = self.entries.len() == 0;
        proof {
            if self.entries@.len() > 0 {
                let n = self.entries@[0].0;
                assert(labels::has_name(self.entries@, n));
                assert(self@.contains_key(n));
            } else {
                assert(self@ =~= Map::<Seq<char>, ArgView>::empty());
            }
        }
        b
    }

    /// How many arguments there are.
    pub closed spec fn count(self) -> nat {
        self.entries@.len()
    }

    /// The name of the argument at the place `i`.
    pub closed spec fn name_at(self, i: int) -> Seq<char> {
        self.entries@[i].0
    }

    /// How many arguments there are: each has a place, and no two have the same.
    pub fn len(&self) -> (n: usize)
        requires
            self.wf(),
        ensures
            n == self.count(),
            forall|name: Seq<char>|
                self@.contains_key(name) <==> exists|i: int|
                    0 <= i < n && #[trigger] self.name_at(i) == name,
            forall|i: int, j: int|
                0 <= i < j < n ==> #[trigger] self.name_at(i) != #[trigger] self.name_at(j),
    {
        proof {
            assert forall|name: Seq<char>|
                self@.contains_key(name) <==> exists|i: int|
                    0 <= i < self.count() && #[trigger] self.name_at(i) == name by {
                if self@.contains_key(name) {
                    let i = labels::name_index(self.entries@, name);
                    assert(self.name_at(i) == name);
                }
                if exists|i: int| 0 <= i < self.count() && #[trigger] self.name_at(i) == name {
                    let i = choose|i: int|
                        0 <= i < self.count() && #[trigger] self.name_at(i) == name;
                    assert(self.entries@[i].0 == name);
                    assert(labels::has_name(self.entries@, name));
                }
            }
        }
        self.entries.len()
    }

    /// The argument at the place `i`.
    pub fn entry(&self, i: usize) -> (e: (&str, &ArgValue))
        requires
            self.wf(),
            i < self.count(),
        ensures
            e.0@ == self.name_at(i as int),
            self@.contains_key(e.0@),
            self@[e.0@] == e.1@,
    {
        let e = self.entries.entry(i);
        proof {
            let n = self.entries@[i as int].0;
            assert(labels::has_name(self.entries@, n));
            let at = labels::name_index(self.entries@, n);
            assert(at == i);
        }
        e
    }

    /// The value that is stored under `name`.
    pub fn get(&self, name: &str) -> (v: Option<&ArgValue>)
        requires
            self.wf(),
        ensures
            match v {
                Some(value) => self@.contains_key(name@) && self@[name@] == value@,
                None => !self@.contains_key(name@),
            },
    {
        let n: usize = self.entries.len();
        let mut i: usize = 0;
        while i < n
            invariant
                i <= n == self.entries@.len(),
                self.wf(),
                forall|k: int| 0 <= k < i ==> (#[trigger] self.entries@[k]).0 != name@,
            decreases n - i,
        {
            let (entry_name, value) = self.entries.entry(i);
            if same_text(entry_name, name) {
                proof {
                    assert(self.entries@[i as int].0 == name@);
                    assert(labels::has_name(self.entries@, name@));
                    let at = labels::name_index(self.entries@, name@);
                    assert(at == i);
                }
                return Some(value);
            }
            i += 1;
        }
        assert(!labels::has_name(self.entries@, name@));
        None
    }
}

/// The arguments `m` and after them all `entries`, of which a later one replaces an earlier one
/// of the same name.
pub open spec fn with_entries(
    m: Map<Seq<char>, ArgView>,
    entries: Seq<(Seq<char>, ArgView)>,
) -> Map<Seq<char>, ArgView>
    decreases entries.len(),
{
    if entries.len() == 0 {
        m
    } else {
        with_entries(m, entries.drop_last()).insert(entries.last().0, entries.last().1)
    }
}

/// Text labels as arguments.
pub open spec fn text_entries(l: Seq<(Seq<char>, String)>) -> Seq<(Seq<char>, ArgView)> {
    Seq::new(l.len(), |i: int| (l[i].0, ArgView::Text(l[i].1@)))
}

/// Integer labels as arguments.
pub open spec fn int_entries(l: Seq<(Seq<char>, i64)>) -> Seq<(Seq<char>, ArgView)> {
    Seq::new(l.len(), |i: int| (l[i].0, ArgView::Int(l[i].1)))
}

/// Floating-point labels as arguments.
pub open spec fn float_entries(l: Seq<(Seq<char>, u64)>) -> Seq<(Seq<char>, ArgView)> {
    Seq::new(l.len(), |i: int| (l[i].0, ArgView::Float(l[i].1)))
}

/// Truth labels as arguments.
pub open spec fn bool_entries(l: Seq<(Seq<char>, bool)>) -> Seq<(Seq<char>, ArgView)> {
    Seq::new(l.len(), |i: int| (l[i].0, ArgView::Bool(l[i].1)))
}

/// The arguments `m` and after them those that `l` makes: texts, integers, floating-point values
/// and truth values, in this order.
pub open spec fn with_labels(m: Map<Seq<char>, ArgView>, l: Labels) -> Map<Seq<char>, ArgView> {
    with_entries(
        with_entries(
            with_entries(with_entries(m, text_entries(l.strings@)), int_entries(l.ints@)),
            float_entries(l.floats@),
        ),
        bool_entries(l.bools@),
    )
}

/// Adds the labels to the arguments: texts, integers, floating-point values and truth values, in
/// this order.
pub fn add_labels(args: &mut Args, l: &Labels)
    requires
        old(args).wf(),
    ensures
        final(args).wf(),
        final(args)@ == with_labels(old(args)@, *l),
{
    let ghost m0 = args@;
    let ghost texts = text_entries(l.strings@);
    let ghost ints = int_entries(l.ints@);
    let ghost floats = float_entries(l.floats@);
    let ghost bools = bool_entries(l.bools@);
    let mut i: usize = 0;
    assert(texts.take(0) =~= seq![]);
    while i < l.strings.len()
        invariant
            i <= l.strings@.len() == texts.len(),
            texts == text_entries(l.strings@),
            args.wf(),
            args@ == with_entries(m0, texts.take(i as int)),
        decreases l.strings@.len() - i,
    {
        let (name, value) = l.strings.entry(i);
        args.insert(name, ArgValue::Text(value.clone()));
        i += 1;
        assert(texts.take(i as int).drop_last() =~= texts.take(i - 1));
    }
    assert(texts.take(i as int) =~= texts);
    let ghost m1 = args@;
    let mut i: usize = 0;
    assert(ints.take(0) =~= seq![]);
    while i < l.ints.len()
        invariant
            i <= l.ints@.len() == ints.len(),
            ints == int_entries(l.ints@),
            args.wf(),
            args@ == with_entries(m1, ints.take(i as int)),
        decreases l.ints@.len() - i,
    {
        let (name, value) = l.ints.entry(i);
        args.insert(name, ArgValue::Int(*value));
        i += 1;
        assert(ints.take(i as int).drop_last() =~= ints.take(i - 1));
    }
    assert(ints.take(i as int) =~= ints);
    let ghost m2 = args@;
    let mut i: usize = 0;
    assert(floats.take(0) =~= seq![]);
    while i < l.floats.len()
        invariant
            i <= l.floats@.len() == floats.len(),
            floats == float_entries(l.floats@),
            args.wf(),
            args@ == with_entries(m2, floats.take(i as int)),
        decreases l.floats@.len() - i,
    {
        let (name, value) = l.floats.entry(i);
        args.insert(name, ArgValue::Float(*value));
        i += 1;
        assert(floats.take(i as int).drop_last() =~= floats.take(i - 1));
    }
    assert(floats.take(i as int) =~= floats);
    let ghost m3 = args@;
    let mut i: usize = 0;
    assert(bools.take(0) =~= seq![]);
    while i < l.bools.len()
        invariant
            i <= l.bools@.len() == bools.len(),
            bools == bool_entries(l.bools@),
            args.wf(),
            args@ == with_entries(m3, bools.take(i as int)),
        decreases l.bools@.len() - i,
    {
        let (name, value) = l.bools.entry(i);
        args.insert(name, ArgValue::Bool(*value));
        i += 1;
        assert(bools.take(i as int).drop_last() =~= bools.take(i - 1));
    }
    assert(bools.take(i as int) =~= bools);
}

/// `entries` decide about the names that they hold, and leave all others alone.
proof fn entries_decide(
    m: Map<Seq<char>, ArgView>,
    entries: Seq<(Seq<char>, ArgView)>,
    n: Seq<char>,
)
    requires
        labels::distinct_names(entries),
    ensures
        labels::has_name(entries, n) ==> with_entries(m, entries).contains_key(n) && with_entries(
            m,
            entries,
        )[n] == entries[labels::name_index(entries, n)].1,
        !labels::has_name(entries, n) ==> (with_entries(m, entries).contains_key(n)
            <==> m.contains_key(n)) && with_entries(m, entries)[n] == m[n],
    decreases entries.len(),
{
    if entries.len() > 0 {
        let rest = entries.drop_last();
        let last = entries.len() - 1;
        entries_decide(m, rest, n);
        if labels::has_name(rest, n) {
            let i = labels::name_index(rest, n);
            assert(entries[i].0 == n);
            let k = labels::name_index(entries, n);
            assert(i == k);
            assert(entries[last].0 != n);
        } else if labels::has_name(entries, n) {
            let k = labels::name_index(entries, n);
            if k < last {
                assert(rest[k].0 == n);
            }
            assert(k == last);
        } else {
            assert(entries[last].0 != n);
        }
    }
}

/// Every label is found among the arguments of its event. Where labels of several kinds have the
/// same name, the truth value counts before the floating-point value, that before the integer,
/// and that before the text.
pub proof fn labels_are_found(m: Map<Seq<char>, ArgView>, l: Labels, n: Seq<char>)
    requires
        l.wf(),
    ensures
        ({
            let found = with_labels(m, l);
            if labels::has_name(l.bools@, n) {
                found.contains_key(n) && found[n] == ArgView::Bool(
                    l.bools@[labels::name_index(l.bools@, n)].1,
                )
            } else if labels::has_name(l.floats@, n) {
                found.contains_key(n) && found[n] == ArgView::Float(
                    l.floats@[labels::name_index(l.floats@, n)].1,
                )
            } else if labels::has_name(l.ints@, n) {
                found.contains_key(n) && found[n] == ArgView::Int(
                    l.ints@[labels::name_index(l.ints@, n)].1,
                )
            } else if labels::has_name(l.strings@, n) {
                found.contains_key(n) && found[n] == ArgView::Text(
                    l.strings@[labels::name_index(l.strings@, n)].1@,
                )
            } else {
                (found.contains_key(n) <==> m.contains_key(n)) && found[n] == m[n]
            }
        }),
{
    let texts = text_entries(l.strings@);
    let ints = int_entries(l.ints@);
    let floats = float_entries(l.floats@);
    let bools = bool_entries(l.bools@);
    let m1 = with_entries(m, texts);
    let m2 = with_entries(m1, ints);
    let m3 = with_entries(m2, floats);
    entries_decide(m, texts, n);
    entries_decide(m1, ints, n);
    entries_decide(m2, floats, n);
    entries_decide(m3, bools, n);
    same_place(l.strings@, texts, n);
    same_place(l.ints@, ints, n);
    same_place(l.floats@, floats, n);
    same_place(l.bools@, bools, n);
}

/// A name has the same place in two lists with the same names.
proof fn same_place<A, B>(a: Seq<(Seq<char>, A)>, b: Seq<(Seq<char>, B)>, n: Seq<char>)
    requires
        a.len() == b.len(),
        labels::distinct_names(a),
        forall|i: int| 0 <= i < a.len() ==> (#[trigger] b[i]).0 == a[i].0,
    ensures
        labels::has_name(a, n) <==> labels::has_name(b, n),
        labels::has_name(a, n) ==> labels::name_index(a, n) == labels::name_index(b, n),
        labels::has_name(a, n) ==> 0 <= labels::name_index(a, n) < a.len(),
{
    if labels::has_name(a, n) {
        let i = labels::name_index(a, n);
        assert(b[i].0 == n);
        let k = labels::name_index(b, n);
        assert(a[k].0 == n);
        assert(i == k);
    }
    if labels::has_name(b, n) {
        let k = labels::name_index(b, n);
        assert(a[k].0 == n);
    }
}

} // verus!
