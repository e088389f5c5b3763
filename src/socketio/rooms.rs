//! Room membership: which connections are in which named broadcast group.
use vstd::prelude::*;

verus! {

/// A set of (room, connection) pairs, kept as a list without repeats.
pub struct Rooms {
    pairs: Vec<(String, String)>,
    model: Ghost<Set<(Seq<char>, Seq<char>)>>,
}

impl View for Rooms {
    type V = Set<(Seq<char>, Seq<char>)>;

    closed spec fn view(&self) -> Set<(Seq<char>, Seq<char>)> {
        self.model@
    }
}

/// Whether some entry of `s` spells the pair `p`.
pub open spec fn listed(s: Seq<(String, String)>, p: (Seq<char>, Seq<char>)) -> bool {
    exists|i: int| 0 <= i < s.len() && s[i].0@ == p.0 && s[i].1@ == p.1
}

/// Whether the pair `p` belongs to `sid`, and to `room` where one is given.
pub open spec fn dropped(
    p: (Seq<char>, Seq<char>),
    room: Option<Seq<char>>,
    sid: Seq<char>,
) -> bool {
    p.1 == sid && match room {
        Some(r) => p.0 == r,
        None => true,
    }
}

/// The view of an optional borrowed string.
pub open spec fn opt_ref_view(o: Option<&String>) -> Option<Seq<char>> {
    match o {
        Some(s) => Some(s@),
        None => None,
    }
}

impl Rooms {
    pub closed spec fn wf(&self) -> bool {
        forall|p: (Seq<char>, Seq<char>)|
            #[trigger] self.model@.contains(p) <==> listed(self.pairs@, p)
    }

    /// No room has members.
    pub fn new() -> (r: Self)
        ensures
            r.wf(),
            r@ == Set::<(Seq<char>, Seq<char>)>::empty(),
    {
        Rooms { pairs: Vec::new(), model: Ghost(Set::empty()) }
    }

    /// Whether `sid` is in `room`.
    pub fn contains(&self, room: &String, sid: &String) -> (r: bool)
        requires
            self.wf(),
        ensures
            r == self@.contains((room@, sid@)),
    {
        let mut i: usize = 0;
        while i < self.pairs.len()
            invariant
                0 <= i <= self.pairs.len(),
                self.wf(),
                forall|j: int|
                    0 <= j < i ==> !(self.pairs[j].0@ == room@ && self.pairs[j].1@ == sid@),
            decreases self.pairs.len() - i,
        {
            assert(self.pairs@[i as int] == self.pairs[i as int]);
            if self.pairs[i].0 == *room && self.pairs[i].1 == *sid {
                assert(listed(self.pairs@, (room@, sid@)));
                return true;
            }
            i += 1;
        }
        false
    }

    /// Puts `sid` in `room`.
    pub fn join(&mut self, room: &String, sid: &String)
        requires
            old(self).wf(),
        ensures
            final(self).wf(),
            final(self)@ == old(self)@.insert((room@, sid@)),
    {
        if self.contains(room, sid) {
            assert(self@.insert((room@, sid@)) =~= self@);
            return;
        }
        let ghost before = self.pairs@;
        self.pairs.push((room.clone(), sid.clone()));
        self.model = Ghost(self.model@.insert((room@, sid@)));
        proof {
            assert forall|p: (Seq<char>, Seq<char>)|
                #[trigger] self.model@.contains(p) <==> listed(self.pairs@, p) by {
                if p == (room@, sid@) {
                    assert(self.pairs[before.len() as int].0@ == p.0);
                } else if self.model@.contains(p) {
                    let i = choose|i: int|
                        0 <= i < before.len() && before[i].0@ == p.0 && before[i].1@ == p.1;
                    assert(self.pairs[i] == before[i]);
                } else {
                    assert forall|i: int| 0 <= i < self.pairs.len() implies !(self.pairs[i].0@
                        == p.0 && self.pairs[i].1@ == p.1) by {
                        if i < before.len() {
                            assert(self.pairs[i] == before[i]);
                        }
                    }
                }
            }
        }
    }

    /// Takes out of the list the pairs of `sid`: in `room` only, or in every
    /// room where `room` is `None`.
    fn retain_pairs(&mut self, room: Option<&String>, sid: &String)
        requires
            old(self).wf(),
        ensures
            final(self).wf(),
            final(self)@ == old(self)@.filter(
                |p: (Seq<char>, Seq<char>)| !dropped(p, opt_ref_view(room), sid@),
            ),
    {
        let ghost rv = opt_ref_view(room);
        let mut kept: Vec<(String, String)> = Vec::new();
        let mut i: usize = 0;
        while i < self.pairs.len()
            invariant
                0 <= i <= self.pairs.len(),
                rv == opt_ref_view(room),
                forall|p: (Seq<char>, Seq<char>)|
                    #[trigger] listed(kept@, p) <==> (!dropped(p, rv, sid@) && listed(
                        self.pairs@.take(i as int),
                        p,
                    )),
            decreases self.pairs.len() - i,
        {
            let hit = *sid == self.pairs[i].1 && match room {
                Some(r) => *r == self.pairs[i].0,
                None => true,
            };
            let ghost prev = kept@;
            let ghost q = (self.pairs[i as int].0@, self.pairs[i as int].1@);
            if !hit {
                kept.push((self.pairs[i].0.clone(), self.pairs[i].1.clone()));
            }
            proof {
                assert(hit == dropped(q, rv, sid@));
                let pre = self.pairs@.take(i as int);
                let cur = self.pairs@.take(i + 1);
                assert(cur =~= pre.push(self.pairs[i as int]));
                assert forall|p: (Seq<char>, Seq<char>)|
                    #[trigger] listed(kept@, p) <==> (!dropped(p, rv, sid@) && listed(cur, p)) by {
                    if listed(kept@, p) {
                        let j = choose|j: int|
                            0 <= j < kept.len() && kept[j].0@ == p.0 && kept[j].1@ == p.1;
                        if j < prev.len() {
                            assert(prev[j] == kept[j]);
                            assert(listed(prev, p));
                            let k = choose|k: int|
                                0 <= k < pre.len() && pre[k].0@ == p.0 && pre[k].1@ == p.1;
                            assert(cur[k] == pre[k]);
                        } else {
                            assert(cur[i as int] == self.pairs[i as int]);
                        }
                    }
                    if !dropped(p, rv, sid@) && listed(cur, p) {
                        let j = choose|j: int|
                            0 <= j < cur.len() && cur[j].0@ == p.0 && cur[j].1@ == p.1;
                        if j < i {
                            assert(pre[j] == cur[j]);
                            assert(listed(pre, p));
                            assert(listed(prev, p));
                            let k = choose|k: int|
                                0 <= k < prev.len() && prev[k].0@ == p.0 && prev[k].1@ == p.1;
                            assert(kept[k] == prev[k]);
                        } else {
                            assert(kept[prev.len() as int] == self.pairs[i as int]);
                        }
                    }
                }
            }
            i += 1;
        }
        proof {
            assert(self.pairs@.take(self.pairs.len() as int) =~= self.pairs@);
        }
        let ghost new_model = self.model@.filter(
            |p: (Seq<char>, Seq<char>)| !dropped(p, rv, sid@),
        );
        self.pairs = kept;
        self.model = Ghost(new_model);
    }

    /// Takes `sid` out of `room`.
    pub fn leave(&mut self, room: &String, sid: &String)
        requires
            old(self).wf(),
        ensures
            final(self).wf(),
            final(self)@ == old(self)@.remove((room@, sid@)),
    {
        self.retain_pairs(Some(room), sid);
        assert(self@ =~= old(self)@.remove((room@, sid@)));
    }

    /// Takes `sid` out of every room.
    pub fn leave_all(&mut self, sid: &String)
        requires
            old(self).wf(),
        ensures
            final(self).wf(),
            final(self)@ == old(self)@.filter(|p: (Seq<char>, Seq<char>)| p.1 != sid@),
    {
        self.retain_pairs(None, sid);
        assert(self@ =~= old(self)@.filter(|p: (Seq<char>, Seq<char>)| p.1 != sid@));
    }
}

} // verus!
