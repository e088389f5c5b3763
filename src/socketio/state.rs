//! Who is online: connections that are users, connections that are
//! devices, and the speaker lock held on each device's topic.
use vstd::prelude::*;

use crate::registry::{lists, pair_views, views, Registry};

verus! {

/// Device presence (connection to device name) and the speaker lock
/// (topic to holding connection).
pub struct OnlineDevs {
    onlinedevs: Registry<String>,
    speakers: Registry<String>,
}

/// User presence: connection to display name.
pub struct OnlineUsers {
    onlineusers: Registry<String>,
}

impl OnlineDevs {
    pub closed spec fn wf(&self) -> bool {
        self.onlinedevs.wf() && self.speakers.wf()
    }

    /// Connection to device name.
    pub closed spec fn devs(&self) -> Map<Seq<char>, Seq<char>> {
        self.onlinedevs@
    }

    /// Topic to the connection that holds its speaker lock.
    pub closed spec fn speakers(&self) -> Map<Seq<char>, Seq<char>> {
        self.speakers@
    }

    /// No device and no lock.
    pub fn new() -> (r: Self)
        ensures
            r.wf(),
            r.devs() == Map::<Seq<char>, Seq<char>>::empty(),
            r.speakers() == Map::<Seq<char>, Seq<char>>::empty(),
    {
        OnlineDevs { onlinedevs: Registry::new(), speakers: Registry::new() }
    }

    /// Records `sid` as device `device`; a connection already recorded keeps
    /// its first name. Returns whether the entry was made.
    pub fn add(&mut self, sid: String, device: String) -> (added: bool)
        requires
            old(self).wf(),
        ensures
            final(self).wf(),
            added == !old(self).devs().contains_key(sid@),
            final(self).devs() == apply_op(old(self).devs(), PresenceOp::Add(sid@, device@)),
            final(self).speakers() == old(self).speakers(),
    {
        self.onlinedevs.add(sid, device)
    }

    /// Forgets the device entry of `sid`.
    pub fn remove(&mut self, sid: &String)
        requires
            old(self).wf(),
        ensures
            final(self).wf(),
            final(self).devs() == apply_op(old(self).devs(), PresenceOp::Remove(sid@)),
            final(self).speakers() == old(self).speakers(),
    {
        let _ = self.onlinedevs.remove(sid);
    }

    /// Claims the speaker lock of `device` for `speakerid`: it succeeds only
    /// where nobody holds it, and the result says whether it did.
    pub fn speaker_on(&mut self, speakerid: String, device: &String) -> (claimed: bool)
        requires
            old(self).wf(),
        ensures
            final(self).wf(),
            claimed == !old(self).speakers().contains_key(device@),
            final(self).speakers() == claim(old(self).speakers(), device@, speakerid@),
            final(self).devs() == old(self).devs(),
    {
        self.speakers.add(device.clone(), speakerid)
    }

    /// Releases the speaker lock of `device`, whoever holds it.
    pub fn speaker_off(&mut self, device: &String)
        requires
            old(self).wf(),
        ensures
            final(self).wf(),
            final(self).speakers() == old(self).speakers().remove(device@),
            final(self).devs() == old(self).devs(),
    {
        let _ = self.speakers.remove(device);
    }

    /// Whether somebody holds the speaker lock of `device`.
    pub fn has_speaker(&self, device: &String) -> (r: bool)
        requires
            self.wf(),
        ensures
            r == self.speakers().contains_key(device@),
    {
        self.speakers.contains_key(device)
    }

    /// A connection that is device `device`, if any is online.
    pub fn getcamid(&self, device: &String) -> (r: Option<String>)
        requires
            self.wf(),
        ensures
            r matches Some(s) ==> self.devs().contains_key(s@) && self.devs()[s@] == device@,
            r.is_none() == !self.devs().values().contains(device@),
    {
        let r = self.onlinedevs.key_of(device);
        proof {
            if r.is_some() {
                assert(self.devs().values().contains(device@));
            }
        }
        r
    }

    /// The device name of `sid`, if it is a device.
    pub fn get(&self, sid: &String) -> (r: Option<String>)
        requires
            self.wf(),
        ensures
            r.is_some() == self.devs().contains_key(sid@),
            r matches Some(d) ==> d@ == self.devs()[sid@],
    {
        match self.onlinedevs.get(sid) {
            Some(d) => Some(d.clone()),
            None => None,
        }
    }

    /// The distinct names of the online devices.
    pub fn val(&self) -> (r: Vec<String>)
        requires
            self.wf(),
        ensures
            views(r@).no_duplicates(),
            views(r@).to_set() == self.devs().values(),
    {
        self.onlinedevs.values()
    }
}

/// The lock table after `holder` claims `topic`: insert if absent.
pub open spec fn claim(
    m: Map<Seq<char>, Seq<char>>,
    topic: Seq<char>,
    holder: Seq<char>,
) -> Map<Seq<char>, Seq<char>> {
    if m.contains_key(topic) {
        m
    } else {
        m.insert(topic, holder)
    }
}

/// Whether a claim on `topic` wins: nobody holds it.
pub open spec fn claim_wins(m: Map<Seq<char>, Seq<char>>, topic: Seq<char>) -> bool {
    !m.contains_key(topic)
}

/// Speaker exclusivity: where nobody holds `topic`, a claim by `a` and then
/// one by `b` leave `a` holding the lock; the first claim reports success
/// and the second reports failure.
pub proof fn lemma_speaker_exclusive(
    m: Map<Seq<char>, Seq<char>>,
    topic: Seq<char>,
    a: Seq<char>,
    b: Seq<char>,
)
    requires
        !m.contains_key(topic),
    ensures
        ({
            let m1 = claim(m, topic, a);
            let m2 = claim(m1, topic, b);
            &&& claim_wins(m, topic)
            &&& !claim_wins(m1, topic)
            &&& m2.contains_key(topic)
            &&& m2[topic] == a
        }),
{
}

/// One change to a presence registry.
pub enum PresenceOp {
    Add(Seq<char>, Seq<char>),
    Remove(Seq<char>),
}

/// A registry after one change: an add is ignored where the connection is
/// already present.
pub open spec fn apply_op(m: Map<Seq<char>, Seq<char>>, op: PresenceOp) -> Map<Seq<char>, Seq<char>> {
    match op {
        PresenceOp::Add(id, name) => if m.contains_key(id) {
            m
        } else {
            m.insert(id, name)
        },
        PresenceOp::Remove(id) => m.remove(id),
    }
}

/// A registry after a sequence of changes, starting empty.
pub open spec fn replay(ops: Seq<PresenceOp>) -> Map<Seq<char>, Seq<char>>
    decreases ops.len(),
{
    if ops.len() == 0 {
        Map::empty()
    } else {
        apply_op(replay(ops.drop_last()), ops.last())
    }
}

/// `id` was added at some step and not removed after it.
pub open spec fn live(ops: Seq<PresenceOp>, id: Seq<char>) -> bool {
    exists|i: int|
        0 <= i < ops.len() && (#[trigger] ops[i] matches PresenceOp::Add(k, _) && k == id)
            && forall|j: int| i < j < ops.len() ==> ops[j] != PresenceOp::Remove(id)
}

proof fn lemma_replay_live(ops: Seq<PresenceOp>, id: Seq<char>)
    ensures
        replay(ops).contains_key(id) == live(ops, id),
    decreases ops.len(),
{
    if ops.len() > 0 {
        let pre = ops.drop_last();
        let n = ops.len() - 1;
        lemma_replay_live(pre, id);
        if live(pre, id) {
            let i = choose|i: int|
                0 <= i < pre.len() && (#[trigger] pre[i] matches PresenceOp::Add(k, _) && k == id)
                    && forall|j: int| i < j < pre.len() ==> pre[j] != PresenceOp::Remove(id);
            assert(ops[i] == pre[i]);
            if ops[n] != PresenceOp::Remove(id) {
                assert forall|j: int| i < j < ops.len() implies ops[j] != PresenceOp::Remove(id) by {
                    if j < n {
                        assert(ops[j] == pre[j]);
                    }
                }
            }
        }
        if live(ops, id) {
            let i = choose|i: int|
                0 <= i < ops.len() && (#[trigger] ops[i] matches PresenceOp::Add(k, _) && k == id)
                    && forall|j: int| i < j < ops.len() ==> ops[j] != PresenceOp::Remove(id);
            if i < n {
                assert(pre[i] == ops[i]);
                assert forall|j: int| i < j < pre.len() implies pre[j] != PresenceOp::Remove(id) by {
                    assert(pre[j] == ops[j]);
                }
            }
        }
        match ops[n] {
            PresenceOp::Add(k, _) => {
                if k == id {
                    assert(ops[n] matches PresenceOp::Add(k2, _) && k2 == id);
                }
            },
            PresenceOp::Remove(k) => {
                if k == id && live(ops, id) {
                    let i = choose|i: int|
                        0 <= i < ops.len() && (#[trigger] ops[i] matches PresenceOp::Add(k, _)
                            && k == id) && forall|j: int|
                            i < j < ops.len() ==> ops[j] != PresenceOp::Remove(id);
                    assert(i != n);
                }
            },
        }
    }
}

/// Presence follows history: after any sequence of adds and removes from an
/// empty registry, a listing of its entries (such as `entries` returns)
/// holds `id` exactly when `id` was added and not removed since.
pub proof fn lemma_entries_follow_history(
    ops: Seq<PresenceOp>,
    ps: Seq<(Seq<char>, Seq<char>)>,
    id: Seq<char>,
)
    requires
        lists(ps, replay(ops)),
    ensures
        (exists|i: int| 0 <= i < ps.len() && ps[i].0 == id) == live(ops, id),
{
    lemma_replay_live(ops, id);
    if exists|i: int| 0 <= i < ps.len() && ps[i].0 == id {
        let i = choose|i: int| 0 <= i < ps.len() && ps[i].0 == id;
        assert(replay(ops).contains_key(ps[i].0));
    }
}

impl OnlineUsers {
    pub closed spec fn wf(&self) -> bool {
        self.onlineusers.wf()
    }

    /// Connection to display name.
    pub closed spec fn users(&self) -> Map<Seq<char>, Seq<char>> {
        self.onlineusers@
    }

    /// Nobody online.
    pub fn new() -> (r: Self)
        ensures
            r.wf(),
            r.users() == Map::<Seq<char>, Seq<char>>::empty(),
    {
        OnlineUsers { onlineusers: Registry::new() }
    }

    /// Records `sid` as user `user`; a connection already recorded keeps its
    /// first name. Returns whether the entry was made.
    pub fn add(&mut self, sid: String, user: String) -> (added: bool)
        requires
            old(self).wf(),
        ensures
            final(self).wf(),
            added == !old(self).users().contains_key(sid@),
            final(self).users() == apply_op(old(self).users(), PresenceOp::Add(sid@, user@)),
    {
        self.onlineusers.add(sid, user)
    }

    /// Forgets the user entry of `sid`.
    pub fn remove(&mut self, sid: &String)
        requires
            old(self).wf(),
        ensures
            final(self).wf(),
            final(self).users() == apply_op(old(self).users(), PresenceOp::Remove(sid@)),
    {
        let _ = self.onlineusers.remove(sid);
    }

    /// Whether `sid` is a user.
    pub fn contains(&self, sid: &String) -> (r: bool)
        requires
            self.wf(),
        ensures
            r == self.users().contains_key(sid@),
    {
        self.onlineusers.contains_key(sid)
    }

    /// The display name of `sid`, if it is a user.
    pub fn get(&self, sid: &String) -> (r: Option<String>)
        requires
            self.wf(),
        ensures
            r.is_some() == self.users().contains_key(sid@),
            r matches Some(u) ==> u@ == self.users()[sid@],
    {
        match self.onlineusers.get(sid) {
            Some(u) => Some(u.clone()),
            None => None,
        }
    }

    /// The distinct display names of the online users.
    pub fn val(&self) -> (r: Vec<String>)
        requires
            self.wf(),
        ensures
            views(r@).no_duplicates(),
            views(r@).to_set() == self.users().values(),
    {
        self.onlineusers.values()
    }

    /// Every (connection, display name) pair, each connection once.
    pub fn entries(&self) -> (r: Vec<(String, String)>)
        requires
            self.wf(),
        ensures
            lists(pair_views(r@), self.users()),
    {
        self.onlineusers.entries()
    }
}

} // verus!
