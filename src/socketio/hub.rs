//! The coordinator's whole state: presence, topic membership per
//! connection, room membership and speaker locks, with the steps that bind
//! a connection to a topic and unbind it.
use vstd::prelude::*;

use crate::registry::{views, Registry};
use crate::socketio::outbound::{actions, fanout, Action, Event, Outbound, Payload, PayloadV, Target, TargetV};
use crate::socketio::rooms::Rooms;
use crate::socketio::state::{OnlineDevs, OnlineUsers};

verus! {

/// The topic a connection is bound to, and the connection that originated
/// it (the device's own connection).
pub struct Topic {
    pub title: String,
    pub tid: String,
}

impl View for Topic {
    type V = (Seq<char>, Seq<char>);

    open spec fn view(&self) -> (Seq<char>, Seq<char>) {
        (self.title@, self.tid@)
    }
}

/// The model of the coordinator.
pub struct HubView {
    /// Connection to display name.
    pub users: Map<Seq<char>, Seq<char>>,
    /// Connection to device name.
    pub devs: Map<Seq<char>, Seq<char>>,
    /// Topic to speaker-lock holder.
    pub speakers: Map<Seq<char>, Seq<char>>,
    /// Connection to (topic, originating connection).
    pub topics: Map<Seq<char>, (Seq<char>, Seq<char>)>,
    /// (room, member) pairs.
    pub rooms: Set<(Seq<char>, Seq<char>)>,
}

/// Every bound connection is in its topic's room, and no connection is both
/// a user and a device.
pub open spec fn hub_inv(v: HubView) -> bool {
    parts_inv(v.users, v.devs, v.topics, v.rooms)
}

/// `hub_inv`, over the parts it reads.
pub open spec fn parts_inv(
    users: Map<Seq<char>, Seq<char>>,
    devs: Map<Seq<char>, Seq<char>>,
    topics: Map<Seq<char>, (Seq<char>, Seq<char>)>,
    rooms: Set<(Seq<char>, Seq<char>)>,
) -> bool {
    &&& forall|s: Seq<char>| #[trigger]
        topics.contains_key(s) ==> rooms.contains((topics[s].0, s))
    &&& forall|s: Seq<char>| !(#[trigger] users.contains_key(s) && devs.contains_key(s))
}

/// The state after `sid` leaves `room`, where it is a member; its topic
/// record goes too, whatever topic it names.
pub open spec fn unbind_spec(v: HubView, sid: Seq<char>, room: Seq<char>) -> HubView {
    if v.rooms.contains((room, sid)) {
        HubView { rooms: v.rooms.remove((room, sid)), topics: v.topics.remove(sid), ..v }
    } else {
        v
    }
}

/// What leaving `room` tells the transport: `hangup` with the sender's id to
/// the room's other members, then leave.
pub open spec fn unbind_actions(v: HubView, sid: Seq<char>, room: Seq<char>) -> Seq<Action> {
    if v.rooms.contains((room, sid)) {
        seq![Action::Emit(TargetV::Room(room), Event::Hangup, PayloadV::Id(sid)), Action::Leave(room)]
    } else {
        seq![]
    }
}

/// Whether `sid` is bound to a topic other than `title`.
pub open spec fn bound_elsewhere(v: HubView, sid: Seq<char>, title: Seq<char>) -> bool {
    v.topics.contains_key(sid) && v.topics[sid].0 != title
}

/// The state after binding `sid` to `title`: a binding to another topic is
/// undone first, then `sid` joins the room and records the topic.
pub open spec fn bind_spec(v: HubView, sid: Seq<char>, title: Seq<char>, origin: Seq<char>) -> HubView {
    let v1 = if bound_elsewhere(v, sid, title) {
        unbind_spec(v, sid, v.topics[sid].0)
    } else {
        v
    };
    HubView {
        topics: v1.topics.insert(sid, (title, origin)),
        rooms: v1.rooms.insert((title, sid)),
        ..v1
    }
}

/// What binding tells the transport.
pub open spec fn bind_actions(v: HubView, sid: Seq<char>, title: Seq<char>) -> Seq<Action> {
    (if bound_elsewhere(v, sid, title) {
        unbind_actions(v, sid, v.topics[sid].0)
    } else {
        seq![]
    }) + seq![Action::Join(title)]
}

/// Binding `sid` to `topic` and then unbinding it from that room leaves no
/// topic record for `sid` and takes it out of the room.
pub proof fn lemma_bind_then_unbind(v: HubView, sid: Seq<char>, topic: Seq<char>, origin: Seq<char>)
    ensures
        ({
            let v2 = unbind_spec(bind_spec(v, sid, topic, origin), sid, topic);
            &&& !v2.topics.contains_key(sid)
            &&& !v2.rooms.contains((topic, sid))
        }),
{
    let v1 = bind_spec(v, sid, topic, origin);
    assert(v1.rooms.contains((topic, sid)));
    assert(v1.topics.contains_key(sid) && v1.topics[sid].0 == topic);
}

/// The coordinator.
pub struct Hub {
    devs: OnlineDevs,
    users: OnlineUsers,
    topics: Registry<Topic>,
    rooms: Rooms,
}

impl View for Hub {
    type V = HubView;

    closed spec fn view(&self) -> HubView {
        HubView {
            users: self.users.users(),
            devs: self.devs.devs(),
            speakers: self.devs.speakers(),
            topics: self.topics@,
            rooms: self.rooms@,
        }
    }
}

impl Hub {
    pub closed spec fn wf(&self) -> bool {
        &&& self.devs.wf()
        &&& self.users.wf()
        &&& self.topics.wf()
        &&& self.rooms.wf()
        &&& parts_inv(self.users.users(), self.devs.devs(), self.topics@, self.rooms@)
    }

    /// A well-formed coordinator keeps its invariant: every bound connection
    /// is in its topic's room, and no connection is both a user and a device.
    pub proof fn lemma_invariant(&self)
        requires
            self.wf(),
        ensures
            hub_inv(self@),
    {
    }

    /// Nobody online, nothing bound, no lock held.
    pub fn new() -> (r: Hub)
        ensures
            r.wf(),
            r@.users.is_empty(),
            r@.devs.is_empty(),
            r@.speakers.is_empty(),
            r@.topics.is_empty(),
            r@.rooms.is_empty(),
    {
        Hub {
            devs: OnlineDevs::new(),
            users: OnlineUsers::new(),
            topics: Registry::new(),
            rooms: Rooms::new(),
        }
    }

    /// Device presence and speaker locks.
    pub fn devs(&self) -> (r: &OnlineDevs)
        requires
            self.wf(),
        ensures
            r.wf(),
            r.devs() == self@.devs,
            r.speakers() == self@.speakers,
    {
        &self.devs
    }

    /// User presence.
    pub fn users(&self) -> (r: &OnlineUsers)
        requires
            self.wf(),
        ensures
            r.wf(),
            r.users() == self@.users,
    {
        &self.users
    }

    /// The topic `sid` is bound to, if any.
    pub fn topic_of(&self, sid: &String) -> (r: Option<Topic>)
        requires
            self.wf(),
        ensures
            r.is_some() == self@.topics.contains_key(sid@),
            r matches Some(t) ==> t@ == self@.topics[sid@],
    {
        match self.topics.get(sid) {
            Some(t) => Some(Topic { title: t.title.clone(), tid: t.tid.clone() }),
            None => None,
        }
    }

    /// Whether `sid` is in `room`.
    pub fn in_room(&self, room: &String, sid: &String) -> (r: bool)
        requires
            self.wf(),
        ensures
            r == self@.rooms.contains((room@, sid@)),
    {
        self.rooms.contains(room, sid)
    }

    /// Puts `sid` in `room` without binding it to a topic.
    pub fn join(&mut self, room: &String, sid: &String)
        requires
            old(self).wf(),
        ensures
            final(self).wf(),
            final(self)@ == (HubView { rooms: old(self)@.rooms.insert((room@, sid@)), ..old(self)@ }),
    {
        self.rooms.join(room, sid);
    }

    /// Records `sid` as user `user` unless it is already a user or a device.
    pub fn add_user(&mut self, sid: &String, user: &String)
        requires
            old(self).wf(),
        ensures
            final(self).wf(),
            final(self)@ == (HubView {
                users: if old(self)@.users.contains_key(sid@) || old(self)@.devs.contains_key(sid@) {
                    old(self)@.users
                } else {
                    old(self)@.users.insert(sid@, user@)
                },
                ..old(self)@
            }),
    {
        if self.devs.get(sid).is_none() {
            let _ = self.users.add(sid.clone(), user.clone());
        }
    }

    /// Forgets the user entry of `sid`.
    pub fn remove_user(&mut self, sid: &String)
        requires
            old(self).wf(),
        ensures
            final(self).wf(),
            final(self)@ == (HubView { users: old(self)@.users.remove(sid@), ..old(self)@ }),
    {
        self.users.remove(sid);
    }

    /// Records `sid` as device `device` unless it is already a device or a
    /// user.
    pub fn add_dev(&mut self, sid: &String, device: &String)
        requires
            old(self).wf(),
        ensures
            final(self).wf(),
            final(self)@ == (HubView {
                devs: if old(self)@.devs.contains_key(sid@) || old(self)@.users.contains_key(sid@) {
                    old(self)@.devs
                } else {
                    old(self)@.devs.insert(sid@, device@)
                },
                ..old(self)@
            }),
    {
        if !self.users.contains(sid) {
            let _ = self.devs.add(sid.clone(), device.clone());
        }
    }

    /// Forgets the device entry of `sid` and releases the speaker lock of
    /// its device; returns the device's name.
    pub fn remove_dev(&mut self, sid: &String) -> (r: Option<String>)
        requires
            old(self).wf(),
        ensures
            final(self).wf(),
            r.is_some() == old(self)@.devs.contains_key(sid@),
            final(self)@ == (match r {
                Some(d) => HubView {
                    devs: old(self)@.devs.remove(sid@),
                    speakers: old(self)@.speakers.remove(old(self)@.devs[sid@]),
                    ..old(self)@
                },
                None => old(self)@,
            }),
    {
        match self.devs.get(sid) {
            Some(dev) => {
                self.devs.remove(sid);
                self.devs.speaker_off(&dev);
                Some(dev)
            },
            None => None,
        }
    }

    /// Claims the speaker lock of `topic` for `holder`; returns whether the
    /// claim won.
    pub fn claim_speaker(&mut self, holder: String, topic: &String) -> (claimed: bool)
        requires
            old(self).wf(),
        ensures
            final(self).wf(),
            claimed == !old(self)@.speakers.contains_key(topic@),
            final(self)@ == (HubView {
                speakers: crate::socketio::state::claim(old(self)@.speakers, topic@, holder@),
                ..old(self)@
            }),
    {
        self.devs.speaker_on(holder, topic)
    }

    /// Releases the speaker lock of `topic`.
    pub fn release_speaker(&mut self, topic: &String)
        requires
            old(self).wf(),
        ensures
            final(self).wf(),
            final(self)@ == (HubView { speakers: old(self)@.speakers.remove(topic@), ..old(self)@ }),
    {
        self.devs.speaker_off(topic);
    }

    /// Takes `sid` out of `room` where it is a member: tells the room's
    /// other members `hangup`, drops its topic record, and leaves.
    pub fn unbind(&mut self, sid: &String, room: &String) -> (out: Vec<Outbound>)
        requires
            old(self).wf(),
        ensures
            final(self).wf(),
            final(self)@ == unbind_spec(old(self)@, sid@, room@),
            actions(out@) == unbind_actions(old(self)@, sid@, room@),
    {
        let mut out: Vec<Outbound> = Vec::new();
        if self.rooms.contains(room, sid) {
            out.push(Outbound::Emit(Target::Room(room.clone()), Event::Hangup, Payload::Id(sid.clone())));
            let _ = self.topics.remove(sid);
            self.rooms.leave(room, sid);
            out.push(Outbound::Leave(room.clone()));
            assert(actions(out@) =~= unbind_actions(old(self)@, sid@, room@));
        } else {
            assert(actions(out@) =~= unbind_actions(old(self)@, sid@, room@));
        }
        out
    }

    /// Binds `sid` to `title`, originated by `origin`: a binding to another
    /// topic is undone first, so a connection is never left in an old room.
    pub fn bind(&mut self, sid: &String, title: &String, origin: String) -> (out: Vec<Outbound>)
        requires
            old(self).wf(),
        ensures
            final(self).wf(),
            final(self)@ == bind_spec(old(self)@, sid@, title@, origin@),
            actions(out@) == bind_actions(old(self)@, sid@, title@),
    {
        let prev = match self.topics.get(sid) {
            Some(t) => if t.title != *title {
                Some(t.title.clone())
            } else {
                None
            },
            None => None,
        };
        let mut out: Vec<Outbound> = match prev {
            Some(old_title) => self.unbind(sid, &old_title),
            None => Vec::new(),
        };
        let ghost mid = out@;
        self.rooms.join(title, sid);
        self.topics.put(sid.clone(), Topic { title: title.clone(), tid: origin });
        out.push(Outbound::Join(title.clone()));
        assert(actions(out@) =~= actions(mid) + seq![Action::Join(title@)]);
        out
    }

    /// Everything that ties `sid` to rooms and topics goes: it leaves every
    /// room and its topic record is dropped.
    pub fn drop_connection(&mut self, sid: &String)
        requires
            old(self).wf(),
        ensures
            final(self).wf(),
            final(self)@ == (HubView {
                rooms: old(self)@.rooms.filter(|p: (Seq<char>, Seq<char>)| p.1 != sid@),
                topics: old(self)@.topics.remove(sid@),
                ..old(self)@
            }),
    {
        self.rooms.leave_all(sid);
        let _ = self.topics.remove(sid);
    }
}

/// Appends an emit of `ev`, carrying `sid`, to the other members of each
/// room in `names`.
pub fn notify_rooms(out: &mut Vec<Outbound>, names: &Vec<String>, ev: Event, sid: &String)
    ensures
        actions(final(out)@) == actions(old(out)@) + fanout(views(names@), ev, PayloadV::Id(sid@)),
{
    let ghost start = actions(out@);
    let mut i: usize = 0;
    while i < names.len()
        invariant
            0 <= i <= names.len(),
            actions(out@) == start + fanout(views(names@).take(i as int), ev, PayloadV::Id(sid@)),
        decreases names.len() - i,
    {
        let ghost prev = out@;
        let ghost a = Action::Emit(TargetV::Room(names@[i as int]@), ev, PayloadV::Id(sid@));
        out.push(Outbound::Emit(Target::Room(names[i].clone()), ev, Payload::Id(sid.clone())));
        assert(actions(out@) =~= actions(prev).push(a));
        assert(views(names@).take(i + 1) =~= views(names@).take(i as int).push(names@[i as int]@));
        assert(fanout(views(names@).take(i + 1), ev, PayloadV::Id(sid@)) =~= fanout(
            views(names@).take(i as int),
            ev,
            PayloadV::Id(sid@),
        ).push(a));
        assert(actions(out@) =~= start + fanout(views(names@).take(i + 1), ev, PayloadV::Id(sid@)));
        i += 1;
    }
    assert(views(names@).take(names.len() as int) =~= views(names@));
}

/// Appends a `userOnline` emit, carrying the one pair (`sid`, `user`), to the
/// other members of each room in `names`.
pub fn announce_user(out: &mut Vec<Outbound>, names: &Vec<String>, sid: &String, user: &String)
    ensures
        actions(final(out)@) == actions(old(out)@) + fanout(
            views(names@),
            Event::UserOnline,
            PayloadV::Users(seq![(sid@, user@)]),
        ),
{
    let ghost start = actions(out@);
    let ghost p = PayloadV::Users(seq![(sid@, user@)]);
    let mut i: usize = 0;
    while i < names.len()
        invariant
            0 <= i <= names.len(),
            p == PayloadV::Users(seq![(sid@, user@)]),
            actions(out@) == start + fanout(views(names@).take(i as int), Event::UserOnline, p),
        decreases names.len() - i,
    {
        let pair = vec![(sid.clone(), user.clone())];
        assert(pair@.map_values(|q: (String, String)| (q.0@, q.1@)) =~= seq![(sid@, user@)]);
        let ghost prev = out@;
        let ghost a = Action::Emit(TargetV::Room(names@[i as int]@), Event::UserOnline, p);
        out.push(Outbound::Emit(Target::Room(names[i].clone()), Event::UserOnline, Payload::Users(pair)));
        assert(actions(out@) =~= actions(prev).push(a));
        assert(views(names@).take(i + 1) =~= views(names@).take(i as int).push(names@[i as int]@));
        assert(fanout(views(names@).take(i + 1), Event::UserOnline, p) =~= fanout(
            views(names@).take(i as int),
            Event::UserOnline,
            p,
        ).push(a));
        assert(actions(out@) =~= start + fanout(views(names@).take(i + 1), Event::UserOnline, p));
        i += 1;
    }
    assert(views(names@).take(names.len() as int) =~= views(names@));
}

} // verus!
