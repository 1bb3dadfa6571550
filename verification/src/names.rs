//! Sets of names and maps keyed by names.
//!
//! Both keep their entries in a vector, in the order in which the names were
//! first added. In contracts a name is the sequence of its characters.
use vstd::prelude::*;

verus! {

/// The names held by a sequence of strings, in order.
pub open spec fn names_of(v: Seq<String>) -> Seq<Seq<char>> {
    Seq::new(v.len(), |i: int| v[i]@)
}

/// Where `name` stands in `v`, if anywhere.
pub fn position(v: &Vec<String>, name: &String) -> (r: Option<usize>)
    ensures
        r is Some <==> names_of(v@).contains(name@),
        r matches Some(i) ==> i < v@.len() && v@[i as int]@ == name@,
{
    let mut i: usize = 0;
    while i < v.len()
        invariant
            i <= v.len(),
            forall|j: int| 0 <= j < i ==> v@[j]@ != name@,
        decreases v.len() - i,
    {
        if v[i] == *name {
            assert(names_of(v@)[i as int] == name@);
            return Some(i);
        }
        i += 1;
    }
    assert(forall|j: int| 0 <= j < v@.len() ==> names_of(v@)[j] == v@[j]@);
    None
}

/// The sequence with `n` at its end, unless it holds `n` already.
pub open spec fn with_name(acc: Seq<Seq<char>>, n: Seq<char>) -> Seq<Seq<char>> {
    if acc.contains(n) {
        acc
    } else {
        acc.push(n)
    }
}

/// A finite set of names.
#[derive(Debug)]
pub struct NameSet {
    pub names: Vec<String>,
}

impl View for NameSet {
    type V = Set<Seq<char>>;

    open spec fn view(&self) -> Set<Seq<char>> {
        names_of(self.names@).to_set()
    }
}

impl DeepView for NameSet {
    type V = Set<Seq<char>>;

    open spec fn deep_view(&self) -> Set<Seq<char>> {
        self@
    }
}

impl NameSet {
    /// No name is held twice.
    pub open spec fn wf(&self) -> bool {
        names_of(self.names@).no_duplicates()
    }

    /// The names of the set in the order in which they were added.
    pub open spec fn order(&self) -> Seq<Seq<char>> {
        names_of(self.names@)
    }

    /// The empty set.
    pub fn new() -> (r: NameSet)
        ensures
            r.wf(),
            r@ == Set::<Seq<char>>::empty(),
            r.order() == Seq::<Seq<char>>::empty(),
    {
        let r = NameSet { names: Vec::new() };
        assert(r@ =~= Set::<Seq<char>>::empty());
        assert(r.order() =~= Seq::<Seq<char>>::empty());
        r
    }

    /// The number of names in the set.
    pub fn len(&self) -> (n: usize)
        requires
            self.wf(),
        ensures
            n == self@.len(),
            self@.finite(),
    {
        proof {
            names_of(self.names@).unique_seq_to_set();
        }
        self.names.len()
    }

    /// Whether `name` is in the set.
    pub fn contains(&self, name: &String) -> (r: bool)
        ensures
            r == self@.contains(name@),
    {
        position(&self.names, name).is_some()
    }

    /// Adds `name` to the set.
    pub fn insert(&mut self, name: String)
        requires
            old(self).wf(),
        ensures
            final(self).wf(),
            final(self)@ == old(self)@.insert(name@),
            final(self).order() == with_name(old(self).order(), name@),
    {
        if position(&self.names, &name).is_none() {
            let ghost before = names_of(self.names@);
            self.names.push(name);
            assert(names_of(self.names@) =~= before.push(name@));
            assert(self@ =~= old(self)@.insert(name@)) by {
                assert forall|n: Seq<char>|
                    self@.contains(n) <==> old(self)@.insert(name@).contains(n) by {
                    if before.push(name@).contains(n) {
                        let i = choose|i: int|
                            0 <= i < before.len() + 1 && before.push(name@)[i] == n;
                        if i < before.len() {
                            assert(before[i] == n);
                        }
                    }
                    if before.contains(n) {
                        let i = choose|i: int| 0 <= i < before.len() && before[i] == n;
                        assert(before.push(name@)[i] == n);
                    }
                    if n == name@ {
                        assert(before.push(name@)[before.len() as int] == n);
                    }
                }
            }
        } else {
            assert(self@ =~= old(self)@.insert(name@));
        }
    }

    /// Adds every name of `other` to the set.
    pub fn union_with(&mut self, other: &NameSet)
        requires
            old(self).wf(),
        ensures
            final(self).wf(),
            final(self)@ == old(self)@.union(other@),
    {
        let ghost theirs = names_of(other.names@);
        let mut i: usize = 0;
        while i < other.names.len()
            invariant
                i <= other.names.len(),
                theirs == names_of(other.names@),
                self.wf(),
                forall|n: Seq<char>|
                    self@.contains(n) <==> old(self)@.contains(n) || exists|j: int|
                        0 <= j < i && theirs[j] == n,
            decreases other.names.len() - i,
        {
            let ghost before = self@;
            self.insert(other.names[i].clone());
            proof {
                assert(theirs[i as int] == other.names@[i as int]@);
                assert forall|n: Seq<char>|
                    self@.contains(n) <==> old(self)@.contains(n) || exists|j: int|
                        0 <= j < i + 1 && theirs[j] == n by {
                    if before.contains(n) && !old(self)@.contains(n) {
                        let j = choose|j: int| 0 <= j < i && theirs[j] == n;
                        assert(0 <= j < i + 1 && theirs[j] == n);
                    }
                }
            }
            i += 1;
        }
        assert(self@ =~= old(self)@.union(other@));
    }

    /// The names of the set that are not in `other`.
    pub fn difference(&self, other: &NameSet) -> (r: NameSet)
        ensures
            r.wf(),
            r@ == self@.difference(other@),
    {
        let ghost mine = names_of(self.names@);
        let mut out = NameSet::new();
        let mut i: usize = 0;
        while i < self.names.len()
            invariant
                i <= self.names.len(),
                mine == names_of(self.names@),
                out.wf(),
                forall|n: Seq<char>|
                    out@.contains(n) <==> !other@.contains(n) && exists|j: int|
                        0 <= j < i && mine[j] == n,
            decreases self.names.len() - i,
        {
            let ghost before = out@;
            if !other.contains(&self.names[i]) {
                out.insert(self.names[i].clone());
            }
            proof {
                assert(mine[i as int] == self.names@[i as int]@);
                assert forall|n: Seq<char>|
                    out@.contains(n) <==> !other@.contains(n) && exists|j: int|
                        0 <= j < i + 1 && mine[j] == n by {
                    if before.contains(n) {
                        let j = choose|j: int| 0 <= j < i && mine[j] == n;
                        assert(0 <= j < i + 1 && mine[j] == n);
                    }
                    if !other@.contains(n) && exists|j: int| 0 <= j < i + 1 && mine[j] == n {
                        let j = choose|j: int| 0 <= j < i + 1 && mine[j] == n;
                        if j < i {
                            assert(before.contains(n));
                        }
                    }
                }
            }
            i += 1;
        }
        assert(out@ =~= self@.difference(other@));
        out
    }

    /// The set of the names in `v`.
    pub fn from_names(v: &Vec<String>) -> (r: NameSet)
        ensures
            r.wf(),
            r@ == names_of(v@).to_set(),
    {
        let ghost theirs = names_of(v@);
        let mut out = NameSet::new();
        let mut i: usize = 0;
        while i < v.len()
            invariant
                i <= v.len(),
                theirs == names_of(v@),
                out.wf(),
                forall|n: Seq<char>|
                    out@.contains(n) <==> exists|j: int| 0 <= j < i && theirs[j] == n,
            decreases v.len() - i,
        {
            let ghost before = out@;
            out.insert(v[i].clone());
            proof {
                assert(theirs[i as int] == v@[i as int]@);
                assert forall|n: Seq<char>|
                    out@.contains(n) <==> exists|j: int| 0 <= j < i + 1 && theirs[j] == n by {
                    if before.contains(n) {
                        let j = choose|j: int| 0 <= j < i && theirs[j] == n;
                        assert(0 <= j < i + 1 && theirs[j] == n);
                    }
                }
            }
            i += 1;
        }
        assert(out@ =~= theirs.to_set());
        out
    }

    /// The names of the set, each once, in the order in which they were added.
    pub fn to_vec(&self) -> (r: Vec<String>)
        ensures
            names_of(r@) == names_of(self.names@),
    {
        let mut out: Vec<String> = Vec::new();
        let mut i: usize = 0;
        while i < self.names.len()
            invariant
                i <= self.names.len(),
                out@.len() == i,
                forall|j: int| 0 <= j < i ==> out@[j]@ == self.names@[j]@,
            decreases self.names.len() - i,
        {
            out.push(self.names[i].clone());
            i += 1;
        }
        assert(names_of(out@) =~= names_of(self.names@));
        out
    }
}

impl Clone for NameSet {
    fn clone(&self) -> (r: Self)
        ensures
            r.order() == self.order(),
    {
        NameSet { names: self.to_vec() }
    }
}

/// The place of `k` in `keys`: an index that holds it, where there is one.
pub open spec fn slot(keys: Seq<Seq<char>>, k: Seq<char>) -> int {
    choose|i: int| 0 <= i < keys.len() && keys[i] == k
}

/// In a sequence without duplicates, the place of its `i`-th name is `i`.
pub proof fn lemma_slot(keys: Seq<Seq<char>>, i: int)
    requires
        keys.no_duplicates(),
        0 <= i < keys.len(),
    ensures
        slot(keys, keys[i]) == i,
        keys.contains(keys[i]),
{
}

/// A finite map from names to values of type `V`.
///
/// In contracts it is the map from each name to the model of its value.
#[derive(Debug)]
pub struct NameMap<V> {
    pub keys: Vec<String>,
    pub vals: Vec<V>,
}

impl<V: DeepView> View for NameMap<V> {
    type V = Map<Seq<char>, V::V>;

    open spec fn view(&self) -> Map<Seq<char>, V::V> {
        Map::new(
            |k: Seq<char>| names_of(self.keys@).contains(k),
            |k: Seq<char>| self.vals@[slot(names_of(self.keys@), k)].deep_view(),
        )
    }
}

impl<V: DeepView> DeepView for NameMap<V> {
    type V = Map<Seq<char>, V::V>;

    open spec fn deep_view(&self) -> Map<Seq<char>, V::V> {
        self@
    }
}

impl<V: DeepView> NameMap<V> {
    /// Every key has one value, and no key is held twice.
    pub open spec fn wf(&self) -> bool {
        &&& self.keys@.len() == self.vals@.len()
        &&& names_of(self.keys@).no_duplicates()
    }

    /// The keys of the map in the order in which they were entered.
    pub open spec fn order(&self) -> Seq<Seq<char>> {
        names_of(self.keys@)
    }

    /// The entry at index `i` is an entry of the map.
    pub proof fn lemma_entry(&self, i: int)
        requires
            self.wf(),
            0 <= i < self.keys@.len(),
        ensures
            self@.contains_key(self.keys@[i]@),
            self@[self.keys@[i]@] == self.vals@[i].deep_view(),
    {
        lemma_slot(names_of(self.keys@), i);
    }

    /// The empty map.
    pub fn new() -> (r: Self)
        ensures
            r.wf(),
            r@ == Map::<Seq<char>, V::V>::empty(),
            r.order() == Seq::<Seq<char>>::empty(),
    {
        let r = NameMap { keys: Vec::new(), vals: Vec::new() };
        assert(r@ =~= Map::<Seq<char>, V::V>::empty());
        assert(r.order() =~= Seq::<Seq<char>>::empty());
        r
    }

    /// The number of entries.
    pub fn len(&self) -> (n: usize)
        requires
            self.wf(),
        ensures
            n == self.keys@.len(),
            n == self@.dom().len(),
            self@.dom().finite(),
    {
        proof {
            names_of(self.keys@).unique_seq_to_set();
            assert(self@.dom() =~= names_of(self.keys@).to_set());
        }
        self.keys.len()
    }

    /// The index of the entry of `k`, if it has one.
    pub fn find(&self, k: &String) -> (r: Option<usize>)
        requires
            self.wf(),
        ensures
            r is Some <==> self@.contains_key(k@),
            r matches Some(i) ==> i < self.keys@.len() && self.keys@[i as int]@ == k@ && self@[k@]
                == self.vals@[i as int].deep_view(),
    {
        let r = position(&self.keys, k);
        proof {
            if let Some(i) = r {
                self.lemma_entry(i as int);
            }
        }
        r
    }

    /// Whether `k` has an entry.
    pub fn contains_key(&self, k: &String) -> (r: bool)
        requires
            self.wf(),
        ensures
            r == self@.contains_key(k@),
    {
        self.find(k).is_some()
    }

    /// The value of `k`, if it has one.
    pub fn get(&self, k: &String) -> (r: Option<&V>)
        requires
            self.wf(),
        ensures
            r is Some <==> self@.contains_key(k@),
            r matches Some(v) ==> self@[k@] == v.deep_view(),
    {
        match self.find(k) {
            Some(i) => Some(&self.vals[i]),
            None => None,
        }
    }

    /// Gives `k` the value `v`, in place of the one it had, if any.
    pub fn insert(&mut self, k: String, v: V)
        requires
            old(self).wf(),
        ensures
            final(self).wf(),
            final(self)@ == old(self)@.insert(k@, v.deep_view()),
            final(self).order() == with_name(old(self).order(), k@),
    {
        let ghost before = names_of(self.keys@);
        match self.find(&k) {
            Some(i) => {
                self.vals.set(i, v);
                proof {
                    assert forall|n: Seq<char>| #[trigger] self@.contains_key(n) implies self@[n]
                        == old(self)@.insert(k@, v.deep_view())[n] by {
                        let j = slot(before, n);
                        lemma_slot(before, i as int);
                    }
                    assert(self@ =~= old(self)@.insert(k@, v.deep_view()));
                }
            },
            None => {
                self.keys.push(k);
                self.vals.push(v);
                proof {
                    let after = names_of(self.keys@);
                    assert(after =~= before.push(k@));
                    assert forall|n: Seq<char>| after.contains(n) <==> before.contains(n) || n
                        == k@ by {
                        if after.contains(n) {
                            let j = choose|j: int| 0 <= j < after.len() && after[j] == n;
                            if j < before.len() {
                                assert(before[j] == n);
                            }
                        }
                        if before.contains(n) {
                            let j = choose|j: int| 0 <= j < before.len() && before[j] == n;
                            assert(after[j] == n);
                        }
                        if n == k@ {
                            assert(after[before.len() as int] == n);
                        }
                    }
                    assert forall|n: Seq<char>| #[trigger] self@.contains_key(n) implies self@[n]
                        == old(self)@.insert(k@, v.deep_view())[n] by {
                        if n == k@ {
                            lemma_slot(after, before.len() as int);
                        } else {
                            let j = slot(before, n);
                            assert(after[j] == n);
                            lemma_slot(after, j);
                        }
                    }
                    assert(self@ =~= old(self)@.insert(k@, v.deep_view()));
                }
            },
        }
    }
}

} // verus!
