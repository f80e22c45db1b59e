//! Names of processes, and sets of them.

use vstd::hash_map::StringHashMap;
use vstd::prelude::*;
use vstd::string::*;

verus! {

/// The names in a list.
pub open spec fn names_of(list: Seq<String>) -> Set<Seq<char>> {
    Set::new(|n: Seq<char>| exists|i: int| 0 <= i < list.len() && (#[trigger] list[i])@ == n)
}

/// A set of names.
pub struct NameSet {
    names: StringHashMap<bool>,
}

impl View for NameSet {
    type V = Set<Seq<char>>;

    closed spec fn view(&self) -> Set<Seq<char>> {
        self.names@.dom()
    }
}

impl NameSet {
    /// No names.
    pub fn new() -> (s: NameSet)
        ensures
            s@ == Set::<Seq<char>>::empty(),
    {
        let s = NameSet { names: StringHashMap::new() };
        assert(s@ =~= Set::<Seq<char>>::empty());
        s
    }

    /// The names in `list`.
    pub fn from_list(list: &Vec<String>) -> (s: NameSet)
        ensures
            s@ == names_of(list@),
    {
        let mut s = NameSet::new();
        let mut i: usize = 0;
        assert(s@ =~= names_of(list@.take(0)));
        while i < list.len()
            invariant
                i <= list@.len(),
                s@ == names_of(list@.take(i as int)),
            decreases list@.len() - i,
        {
            let ghost before = s@;
            s.names.insert(list[i].clone(), true);
            i += 1;
            proof {
                let shorter = list@.take(i - 1);
                let longer = list@.take(i as int);
                assert forall|n: Seq<char>| s@.contains(n) <==> names_of(longer).contains(n) by {
                    if before.contains(n) {
                        let k = choose|k: int|
                            0 <= k < shorter.len() && (#[trigger] shorter[k])@ == n;
                        assert(longer[k]@ == n);
                    }
                    if n == list@[i - 1]@ {
                        assert(longer[i - 1]@ == n);
                    }
                    if names_of(longer).contains(n) && n != list@[i - 1]@ {
                        let k = choose|k: int|
                            0 <= k < longer.len() && (#[trigger] longer[k])@ == n;
                        assert(shorter[k]@ == n);
                    }
                }
                assert(s@ =~= names_of(longer));
            }
        }
        assert(list@.take(i as int) =~= list@);
        s
    }

    /// Whether `name` is in the set.
    pub fn contains(&self, name: &str) -> (b: bool)
        ensures
            b == self@.contains(name@),
    {
        self.names.contains_key(name)
    }
}

/// The last component of a path: what follows the last `/`, or all of it where there is none.
pub open spec fn base_name_spec(path: Seq<char>) -> Seq<char>
    decreases path.len(),
{
    if path.len() == 0 || path.last() == '/' {
        seq![]
    } else {
        base_name_spec(path.drop_last()).push(path.last())
    }
}

proof fn base_name_suffix(path: Seq<char>, i: int)
    requires
        0 <= i <= path.len(),
        i == 0 || path[i - 1] == '/',
        forall|k: int| i <= k < path.len() ==> path[k] != '/',
    ensures
        base_name_spec(path) == path.skip(i),
    decreases path.len(),
{
    if path.len() == i {
        assert(path.skip(i) =~= seq![]);
    } else {
        base_name_suffix(path.drop_last(), i);
        assert(path.skip(i) =~= path.drop_last().skip(i).push(path.last()));
    }
}

/// The last component of a path.
pub fn base_name(path: &str) -> (name: &str)
    ensures
        name@ == base_name_spec(path@),
{
    let n: usize = path.unicode_len();
    let mut i: usize = n;
    while i > 0
        invariant_except_break
            i <= n,
            n == path@.len(),
            forall|k: int| i <= k < n ==> path@[k] != '/',
        ensures
            i <= n,
            n == path@.len(),
            i == 0 || path@[i - 1] == '/',
            forall|k: int| i <= k < n ==> path@[k] != '/',
        decreases i,
    {
        if path.get_char(i - 1) == '/' {
            break;
        }
        i -= 1;
    }
    proof {
        base_name_suffix(path@, i as int);
        assert(path@.subrange(i as int, n as int) =~= path@.skip(i as int));
    }
    path.substring_char(i, n)
}

} // verus!
