//! A table keyed by connection (or topic) identifier, kept as an association
//! list whose keys are distinct, and viewed as a finite map.
use vstd::prelude::*;

verus! {

/// The views of a sequence of strings.
pub open spec fn views(s: Seq<String>) -> Seq<Seq<char>> {
    s.map_values(|x: String| x@)
}

/// The views of a sequence of string pairs.
pub open spec fn pair_views(s: Seq<(String, String)>) -> Seq<(Seq<char>, Seq<char>)> {
    s.map_values(|p: (String, String)| (p.0@, p.1@))
}

/// `ps` lists exactly the entries of `m`, each key once.
pub open spec fn lists(ps: Seq<(Seq<char>, Seq<char>)>, m: Map<Seq<char>, Seq<char>>) -> bool {
    &&& forall|i: int, j: int| 0 <= i < j < ps.len() ==> ps[i].0 != ps[j].0
    &&& forall|i: int|
        #![trigger ps[i]]
        0 <= i < ps.len() ==> m.contains_key(ps[i].0) && m[ps[i].0] == ps[i].1
    &&& forall|k: Seq<char>| #[trigger]
        m.contains_key(k) ==> exists|i: int| 0 <= i < ps.len() && ps[i].0 == k
}

/// Whether `v` holds a string whose view is `s`.
pub fn contains_str(v: &Vec<String>, s: &String) -> (r: bool)
    ensures
        r == views(v@).contains(s@),
{
    let mut i: usize = 0;
    while i < v.len()
        invariant
            0 <= i <= v.len(),
            forall|j: int| 0 <= j < i ==> v@[j]@ != s@,
        decreases v.len() - i,
    {
        if v[i] == *s {
            assert(views(v@)[i as int] == s@);
            return true;
        }
        i += 1;
    }
    proof {
        if views(v@).contains(s@) {
            let j = choose|j: int| 0 <= j < views(v@).len() && views(v@)[j] == s@;
            assert(v@[j]@ == s@);
        }
    }
    false
}

/// A table from string keys to values; each key is present at most once.
pub struct Registry<V: View> {
    items: Vec<(String, V)>,
    model: Ghost<Map<Seq<char>, V::V>>,
}

impl<V: View> View for Registry<V> {
    type V = Map<Seq<char>, V::V>;

    closed spec fn view(&self) -> Map<Seq<char>, V::V> {
        self.model@
    }
}

impl<V: View> Registry<V> {
    /// The list and the map agree, and no key is listed twice.
    pub closed spec fn wf(&self) -> bool {
        &&& forall|i: int, j: int|
            0 <= i < j < self.items.len() ==> self.items[i].0@ != self.items[j].0@
        &&& forall|i: int|
            #![trigger self.items[i]]
            0 <= i < self.items.len() ==> self.model@.contains_key(self.items[i].0@)
                && self.model@[self.items[i].0@] == self.items[i].1@
        &&& forall|k: Seq<char>| #[trigger]
            self.model@.contains_key(k) ==> exists|i: int|
                0 <= i < self.items.len() && self.items[i].0@ == k
    }

    /// An empty table.
    pub fn new() -> (r: Self)
        ensures
            r.wf(),
            r@ == Map::<Seq<char>, V::V>::empty(),
    {
        Registry { items: Vec::new(), model: Ghost(Map::empty()) }
    }

    /// The position of `id` in the list, if it is there.
    fn find(&self, id: &String) -> (r: Option<usize>)
        requires
            self.wf(),
        ensures
            match r {
                Some(i) => i < self.items.len() && self.items[i as int].0@ == id@
                    && self@.contains_key(id@),
                None => !self@.contains_key(id@),
            },
    {
        let mut i: usize = 0;
        while i < self.items.len()
            invariant
                0 <= i <= self.items.len(),
                self.wf(),
                forall|j: int| 0 <= j < i ==> self.items[j].0@ != id@,
            decreases self.items.len() - i,
        {
            if self.items[i].0 == *id {
                assert(self.items[i as int].0@ == id@);
                return Some(i);
            }
            i += 1;
        }
        None
    }

    /// Whether `id` has an entry.
    pub fn contains_key(&self, id: &String) -> (r: bool)
        requires
            self.wf(),
        ensures
            r == self@.contains_key(id@),
    {
        self.find(id).is_some()
    }

    /// The value of `id`, if it has one.
    pub fn get(&self, id: &String) -> (r: Option<&V>)
        requires
            self.wf(),
        ensures
            r.is_some() == self@.contains_key(id@),
            r matches Some(v) ==> v@ == self@[id@],
    {
        match self.find(id) {
            Some(i) => Some(&self.items[i].1),
            None => None,
        }
    }

    /// Records `id` with `v` unless `id` already has an entry: the first
    /// write wins. Returns whether the entry was made.
    pub fn add(&mut self, id: String, v: V) -> (added: bool)
        requires
            old(self).wf(),
        ensures
            final(self).wf(),
            added == !old(self)@.contains_key(id@),
            final(self)@ == (if added {
                old(self)@.insert(id@, v@)
            } else {
                old(self)@
            }),
    {
        if self.find(&id).is_some() {
            return false;
        }
        let ghost k = id@;
        let ghost val = v@;
        let ghost before = self.items@;
        self.items.push((id, v));
        self.model = Ghost(self.model@.insert(k, val));
        proof {
            let n = self.items.len() as int;
            assert(self.items[n - 1].0@ == k);
            assert forall|i: int| 0 <= i < n - 1 implies self.items[i] == before[i] by {}
            assert forall|kk: Seq<char>| #[trigger]
                self.model@.contains_key(kk) implies exists|i: int|
                    0 <= i < self.items.len() && self.items[i].0@ == kk by {
                if kk != k {
                    let i = choose|i: int| 0 <= i < before.len() && before[i].0@ == kk;
                    assert(self.items[i] == before[i]);
                }
            }
        }
        true
    }

    /// Records `id` with `v`, replacing any earlier value.
    pub fn put(&mut self, id: String, v: V)
        requires
            old(self).wf(),
        ensures
            final(self).wf(),
            final(self)@ == old(self)@.insert(id@, v@),
    {
        let _ = self.remove(&id);
        let _ = self.add(id, v);
        assert(self@ =~= old(self)@.insert(id@, v@));
    }

    /// Removes the entry of `id`, if any, and returns its value.
    pub fn remove(&mut self, id: &String) -> (r: Option<V>)
        requires
            old(self).wf(),
        ensures
            final(self).wf(),
            final(self)@ == old(self)@.remove(id@),
            r.is_some() == old(self)@.contains_key(id@),
            r matches Some(v) ==> v@ == old(self)@[id@],
    {
        match self.find(id) {
            None => {
                assert(self@.remove(id@) =~= self@);
                None
            },
            Some(i) => {
                let ghost before = self.items@;
                let (_, v) = self.items.remove(i);
                self.model = Ghost(self.model@.remove(id@));
                proof {
                    let n = before.len() as int;
                    assert forall|j: int| 0 <= j < i implies self.items[j] == before[j] by {}
                    assert forall|j: int| i <= j < n - 1 implies self.items[j] == before[j + 1] by {}
                    assert forall|a: int, b: int|
                        0 <= a < b < self.items.len() implies self.items[a].0@
                        != self.items[b].0@ by {
                        let a2 = if a < i { a } else { a + 1 };
                        let b2 = if b < i { b } else { b + 1 };
                        assert(self.items[a] == before[a2]);
                        assert(self.items[b] == before[b2]);
                    }
                    assert forall|j: int|
                        #![trigger self.items[j]]
                        0 <= j < self.items.len() implies self.model@.contains_key(
                            self.items[j].0@,
                        ) && self.model@[self.items[j].0@] == self.items[j].1@ by {
                        let j2 = if j < i { j } else { j + 1 };
                        assert(self.items[j] == before[j2]);
                        assert(before[j2].0@ != before[i as int].0@);
                    }
                    assert forall|kk: Seq<char>| #[trigger]
                        self.model@.contains_key(kk) implies exists|j: int|
                            0 <= j < self.items.len() && self.items[j].0@ == kk by {
                        let j = choose|j: int| 0 <= j < before.len() && before[j].0@ == kk;
                        assert(j != i);
                        if j < i {
                            assert(self.items[j] == before[j]);
                        } else {
                            assert(self.items[j - 1] == before[j]);
                        }
                    }
                }
                Some(v)
            },
        }
    }
}

impl Registry<String> {
    /// The distinct values of the table.
    pub fn values(&self) -> (r: Vec<String>)
        requires
            self.wf(),
        ensures
            views(r@).no_duplicates(),
            views(r@).to_set() == self@.values(),
    {
        let mut out: Vec<String> = Vec::new();
        let mut i: usize = 0;
        while i < self.items.len()
            invariant
                0 <= i <= self.items.len(),
                self.wf(),
                views(out@).no_duplicates(),
                forall|n: Seq<char>|
                    views(out@).contains(n) <==> exists|j: int|
                        0 <= j < i && #[trigger] self.items[j].1@ == n,
            decreases self.items.len() - i,
        {
            let ghost prev = out@;
            let found = contains_str(&out, &self.items[i].1);
            if !found {
                out.push(self.items[i].1.clone());
                proof {
                    assert(views(out@) =~= views(prev).push(self.items[i as int].1@));
                }
            }
            proof {
                let x = self.items[i as int].1@;
                assert(views(out@).contains(x)) by {
                    if !found {
                        assert(views(out@)[prev.len() as int] == x);
                    }
                }
                assert forall|n: Seq<char>|
                    views(out@).contains(n) <==> exists|j: int|
                        0 <= j < i + 1 && #[trigger] self.items[j].1@ == n by {
                    if views(out@).contains(n) && n != x {
                        assert(views(prev).contains(n)) by {
                            let k = choose|k: int|
                                0 <= k < views(out@).len() && views(out@)[k] == n;
                            if !found && k == prev.len() {
                                assert(views(out@)[k] == x);
                            } else {
                                assert(views(prev)[k] == n);
                            }
                        }
                    }
                    if n == x {
                        assert(self.items[i as int].1@ == n);
                    }
                    if views(prev).contains(n) {
                        let k = choose|k: int| 0 <= k < views(prev).len() && views(prev)[k] == n;
                        assert(views(out@)[k] == n);
                    }
                }
            }
            i += 1;
        }
        proof {
            assert forall|n: Seq<char>| #[trigger]
                views(out@).to_set().contains(n) == self@.values().contains(n) by {
                if views(out@).contains(n) {
                    let j = choose|j: int| 0 <= j < i && #[trigger] self.items[j].1@ == n;
                    assert(self@.contains_key(self.items[j].0@));
                }
                if self@.values().contains(n) {
                    let k = choose|k: Seq<char>| self@.contains_key(k) && self@[k] == n;
                    let j = choose|j: int| 0 <= j < self.items.len() && self.items[j].0@ == k;
                    assert(self.items[j].1@ == n);
                }
            }
            assert(views(out@).to_set() =~= self@.values());
        }
        out
    }

    /// Every (key, value) entry, each key once.
    pub fn entries(&self) -> (r: Vec<(String, String)>)
        requires
            self.wf(),
        ensures
            lists(pair_views(r@), self@),
    {
        let mut out: Vec<(String, String)> = Vec::new();
        let mut i: usize = 0;
        while i < self.items.len()
            invariant
                0 <= i <= self.items.len(),
                self.wf(),
                out.len() == i,
                forall|j: int|
                    #![trigger out@[j]]
                    0 <= j < i ==> out@[j].0@ == self.items[j].0@ && out@[j].1@
                        == self.items[j].1@,
            decreases self.items.len() - i,
        {
            out.push((self.items[i].0.clone(), self.items[i].1.clone()));
            i += 1;
        }
        proof {
            let ps = pair_views(out@);
            assert forall|j: int| 0 <= j < ps.len() implies ps[j] == (
                self.items[j].0@,
                self.items[j].1@,
            ) by {
                assert(out@[j].0@ == self.items[j].0@);
            }
            assert forall|k: Seq<char>| #[trigger]
                self@.contains_key(k) implies exists|j: int| 0 <= j < ps.len() && ps[j].0 == k by {
                let j = choose|j: int| 0 <= j < self.items.len() && self.items[j].0@ == k;
                assert(ps[j] == (self.items[j].0@, self.items[j].1@));
            }
        }
        out
    }

    /// Some key whose value is `v`, if there is one.
    pub fn key_of(&self, v: &String) -> (r: Option<String>)
        requires
            self.wf(),
        ensures
            r matches Some(k) ==> self@.contains_key(k@) && self@[k@] == v@,
            r.is_none() ==> !self@.values().contains(v@),
    {
        let mut i: usize = 0;
        while i < self.items.len()
            invariant
                0 <= i <= self.items.len(),
                self.wf(),
                forall|j: int| 0 <= j < i ==> self.items[j].1@ != v@,
            decreases self.items.len() - i,
        {
            if self.items[i].1 == *v {
                assert(self.items[i as int].1@ == v@);
                return Some(self.items[i].0.clone());
            }
            i += 1;
        }
        proof {
            if self@.values().contains(v@) {
                let k = choose|k: Seq<char>| self@.contains_key(k) && self@[k] == v@;
                let j = choose|j: int| 0 <= j < self.items.len() && self.items[j].0@ == k;
                assert(self.items[j].1@ == v@);
            }
        }
        None
    }
}

} // verus!
