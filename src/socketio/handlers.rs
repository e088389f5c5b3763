//! The decision of each inbound event: how the coordinator's state changes
//! and what the transport is asked to do, in order. Handlers treat missing
//! state (an unbound connection, an unknown device) as a no-op or a negative
//! answer, never as a failure.
use vstd::prelude::*;

use crate::registry::{lists, views};
use crate::socketio::hub::{
    announce_user, bind_actions, bind_spec, notify_rooms, unbind_actions, unbind_spec, Hub,
    HubView,
};
use crate::socketio::names::{is_sid, is_sid_text, select_names, selected, sorted};
use crate::socketio::outbound::{
    actions, count_emits, emits, fanout, is_fanout, lemma_count_emits_append, lemma_count_fanout, Action,
    Event, Outbound, Payload, PayloadV, Target, TargetV, ACK_TIMEOUT_SECS,
};
use crate::socketio::state::claim;

verus! {

/// The state after `sid` stops being a device: its entry goes, and so does
/// the speaker lock of its device.
pub open spec fn drop_dev_spec(v: HubView, sid: Seq<char>) -> HubView {
    if v.devs.contains_key(sid) {
        HubView { devs: v.devs.remove(sid), speakers: v.speakers.remove(v.devs[sid]), ..v }
    } else {
        v
    }
}

/// The state after a disconnect: out of every room, no topic, no presence,
/// and the lock of its device released.
pub open spec fn disconnect_spec(v: HubView, sid: Seq<char>) -> HubView {
    drop_dev_spec(
        HubView {
            rooms: v.rooms.filter(|p: (Seq<char>, Seq<char>)| p.1 != sid),
            topics: v.topics.remove(sid),
            users: v.users.remove(sid),
            ..v
        },
        sid,
    )
}

/// An emit to the other members of the topic room `sid` is bound to, or
/// nothing where it is unbound.
pub open spec fn to_topic(v: HubView, sid: Seq<char>, ev: Event, p: PayloadV) -> Seq<Action> {
    if v.topics.contains_key(sid) {
        seq![Action::Emit(TargetV::Room(v.topics[sid].0), ev, p)]
    } else {
        seq![]
    }
}

/// The answer a `speakerid` sender gets: a won claim succeeds, a lost one
/// fails; other outcomes get no answer.
pub fn speaker_ack(outcome: SpeakerOutcome) -> (r: Option<Outbound>)
    ensures
        match outcome {
            SpeakerOutcome::Claimed => r matches Some(o) && o@ == Action::Ack(true, PayloadV::Null),
            SpeakerOutcome::Refused => r matches Some(o) && o@ == Action::Ack(
                false,
                PayloadV::Text("Failed"@),
            ),
            _ => r.is_none(),
        },
{
    match outcome {
        SpeakerOutcome::Claimed => Some(Outbound::Ack(true, Payload::Null)),
        SpeakerOutcome::Refused => Some(Outbound::Ack(false, Payload::Text("Failed".to_string()))),
        _ => None,
    }
}

/// `d` is the one connection that is device `name`.
pub open spec fn sole_device(devs: Map<Seq<char>, Seq<char>>, name: Seq<char>, d: Seq<char>) -> bool {
    &&& devs.contains_key(d)
    &&& devs[d] == name
    &&& forall|k: Seq<char>| #[trigger] devs.contains_key(k) && devs[k] == name ==> k == d
}

/// What the coordinator made of a `speakerid` event.
#[derive(PartialEq, Eq, Structural, Clone, Copy, Debug)]
pub enum SpeakerOutcome {
    /// The sender is bound to no topic: nothing happened.
    Unbound,
    /// The identifier was not sixteen characters: the lock was released.
    Released,
    /// The identifier was sixteen characters but not a connection id.
    Malformed,
    /// The lock was free and is now held by the identifier.
    Claimed,
    /// The lock was held already and stays with its holder.
    Refused,
}

/// The sender's topic record, if it is bound.
fn bound_title(hub: &Hub, sid: &String) -> (r: Option<String>)
    requires
        hub.wf(),
    ensures
        r.is_some() == hub@.topics.contains_key(sid@),
        r matches Some(t) ==> t@ == hub@.topics[sid@].0,
{
    match hub.topic_of(sid) {
        Some(t) => Some(t.title),
        None => None,
    }
}

/// `identify`: `sid` joins the room named `user` and becomes that user
/// (unless it is a user or a device already); it gets the full presence
/// list, and every user room hears of the arrival.
pub fn on_identify(hub: &mut Hub, sid: &String, user: &String) -> (out: Vec<Outbound>)
    requires
        old(hub).wf(),
    ensures
        final(hub).wf(),
        final(hub)@ == (HubView {
            rooms: old(hub)@.rooms.insert((user@, sid@)),
            users: if old(hub)@.users.contains_key(sid@) || old(hub)@.devs.contains_key(sid@) {
                old(hub)@.users
            } else {
                old(hub)@.users.insert(sid@, user@)
            },
            ..old(hub)@
        }),
        out@.len() >= 2,
        actions(out@)[0] == Action::Join(user@),
        actions(out@)[1] matches Action::Emit(TargetV::Sender, Event::RefreshUsers, PayloadV::Users(ps))
            && lists(ps, final(hub)@.users),
        is_fanout(
            actions(out@).skip(2),
            final(hub)@.users.values(),
            Event::UserOnline,
            PayloadV::Users(seq![(sid@, user@)]),
        ),
{
    let mut out: Vec<Outbound> = Vec::new();
    hub.join(user, sid);
    out.push(Outbound::Join(user.clone()));
    hub.add_user(sid, user);
    let e = hub.users().entries();
    out.push(Outbound::Emit(Target::Sender, Event::RefreshUsers, Payload::Users(e)));
    let ghost head = actions(out@);
    let names = hub.users().val();
    announce_user(&mut out, &names, sid, user);
    proof {
        let p = PayloadV::Users(seq![(sid@, user@)]);
        assert(actions(out@).skip(2) =~= fanout(views(names@), Event::UserOnline, p));
        assert(actions(out@)[0] == head[0]);
        assert(actions(out@)[1] == head[1]);
    }
    out
}

/// `signout`: every user room hears that `sid` left, then its user entry
/// goes.
pub fn on_signout(hub: &mut Hub, sid: &String) -> (out: Vec<Outbound>)
    requires
        old(hub).wf(),
    ensures
        final(hub).wf(),
        final(hub)@ == (HubView { users: old(hub)@.users.remove(sid@), ..old(hub)@ }),
        is_fanout(actions(out@), old(hub)@.users.values(), Event::UserOffline, PayloadV::Id(sid@)),
{
    let mut out: Vec<Outbound> = Vec::new();
    let names = hub.users().val();
    notify_rooms(&mut out, &names, Event::UserOffline, sid);
    hub.remove_user(sid);
    proof {
        assert(actions(out@) =~= fanout(views(names@), Event::UserOffline, PayloadV::Id(sid@)));
    }
    out
}

/// `fetchAllUsers`: the sender gets the full presence list.
pub fn on_fetchuser(hub: &Hub) -> (out: Vec<Outbound>)
    requires
        hub.wf(),
    ensures
        out@.len() == 1,
        actions(out@)[0] matches Action::Emit(TargetV::Sender, Event::RefreshUsers, PayloadV::Users(ps))
            && lists(ps, hub@.users),
{
    let e = hub.users().entries();
    let mut out: Vec<Outbound> = Vec::new();
    out.push(Outbound::Emit(Target::Sender, Event::RefreshUsers, Payload::Users(e)));
    out
}

/// `message`: where the sender is bound, its payload goes to the other
/// members of the topic room, and one acknowledgement is awaited for at
/// most the fixed timeout.
pub fn on_message(hub: &Hub, sid: &String) -> (out: Vec<Outbound>)
    requires
        hub.wf(),
    ensures
        actions(out@) == (if hub@.topics.contains_key(sid@) {
            seq![Action::Request(hub@.topics[sid@].0, Event::Message, ACK_TIMEOUT_SECS)]
        } else {
            seq![]
        }),
{
    let mut out: Vec<Outbound> = Vec::new();
    if let Some(title) = bound_title(hub, sid) {
        out.push(Outbound::Request(title, Event::Message, ACK_TIMEOUT_SECS));
    }
    assert(actions(out@) =~= (if hub@.topics.contains_key(sid@) {
        seq![Action::Request(hub@.topics[sid@].0, Event::Message, ACK_TIMEOUT_SECS)]
    } else {
        seq![]
    }));
    out
}

/// The one answer to a forwarded message: the acknowledgement received
/// within the deadline, verbatim, or else a failure.
pub fn message_reply(acked: bool) -> (r: Outbound)
    ensures
        r@ == (if acked {
            Action::Relay
        } else {
            Action::Ack(false, PayloadV::Text("Failed to send message"@))
        }),
{
    if acked {
        Outbound::Relay
    } else {
        Outbound::Ack(false, Payload::Text("Failed to send message".to_string()))
    }
}

/// The online device names that are selected, in increasing order.
pub open spec fn picked(v: HubView, requested: Seq<Seq<char>>, unbound_too: bool) -> Set<Seq<char>> {
    v.devs.values().filter(|d: Seq<char>| selected(d, requested.to_set(), unbound_too))
}

/// `checkbox`: answers with the online devices that were asked for or
/// start with "Unbound", sorted.
pub fn on_checkbox(hub: &Hub, devs: &Vec<String>) -> (out: Vec<Outbound>)
    requires
        hub.wf(),
    ensures
        out@.len() == 1,
        actions(out@)[0] matches Action::Ack(true, PayloadV::Names(ns)) && sorted(ns)
            && ns.to_set() == picked(hub@, views(devs@), true),
{
    let known = hub.devs().val();
    let names = select_names(&known, devs, true);
    let mut out: Vec<Outbound> = Vec::new();
    out.push(Outbound::Ack(true, Payload::Names(names)));
    out
}

/// `checkdev`: for a non-empty request, the sender gets the online devices
/// that were asked for, sorted.
pub fn on_checkdev(hub: &Hub, devs: &Vec<String>) -> (out: Vec<Outbound>)
    requires
        hub.wf(),
    ensures
        devs@.len() == 0 ==> out@.len() == 0,
        devs@.len() > 0 ==> out@.len() == 1,
        devs@.len() > 0 ==> (actions(out@)[0] matches Action::Emit(
            TargetV::Sender,
            Event::OnlineDev,
            PayloadV::Names(ns),
        ) && sorted(ns) && ns.to_set() == picked(hub@, views(devs@), false)),
{
    let mut out: Vec<Outbound> = Vec::new();
    if devs.len() > 0 {
        let known = hub.devs().val();
        let names = select_names(&known, devs, false);
        out.push(Outbound::Emit(Target::Sender, Event::OnlineDev, Payload::Names(names)));
    }
    out
}

/// `boxconf`: where device `devid` is online, the sender binds to its topic
/// and is told so; else it is told that no box was found.
pub fn on_boxconf(hub: &mut Hub, sid: &String, devid: &String) -> (out: Vec<Outbound>)
    requires
        old(hub).wf(),
    ensures
        final(hub).wf(),
        !old(hub)@.devs.values().contains(devid@) ==> final(hub)@ == old(hub)@ && actions(out@)
            == seq![Action::Ack(false, PayloadV::Text("No box found for conf: "@ + devid@))],
        old(hub)@.devs.values().contains(devid@) ==> exists|tid: Seq<char>|
            #![trigger old(hub)@.devs[tid]]
            old(hub)@.devs.contains_key(tid) && old(hub)@.devs[tid] == devid@ && final(hub)@
                == bind_spec(old(hub)@, sid@, devid@, tid) && actions(out@) == bind_actions(
                old(hub)@,
                sid@,
                devid@,
            ) + seq![Action::Ack(true, PayloadV::Text("Configuring: "@ + devid@))],
{
    match hub.devs().getcamid(devid) {
        None => {
            let msg = "No box found for conf: ".to_string().concat(devid.as_str());
            let mut out: Vec<Outbound> = Vec::new();
            out.push(Outbound::Ack(false, Payload::Text(msg)));
            assert(actions(out@) =~= seq![
                Action::Ack(false, PayloadV::Text("No box found for conf: "@ + devid@)),
            ]);
            out
        },
        Some(tid) => {
            let ghost t = tid@;
            let mut out = hub.bind(sid, devid, tid);
            let ghost mid = actions(out@);
            let msg = "Configuring: ".to_string().concat(devid.as_str());
            out.push(Outbound::Ack(true, Payload::Text(msg)));
            assert(actions(out@) =~= mid + seq![
                Action::Ack(true, PayloadV::Text("Configuring: "@ + devid@)),
            ]);
            out
        },
    }
}

/// `unset`: where the sender is in room `devid` it hangs up there, leaves,
/// and its topic record goes; it stops being a device, and its device's lock is released.
pub fn on_unset(hub: &mut Hub, sid: &String, devid: &String) -> (out: Vec<Outbound>)
    requires
        old(hub).wf(),
    ensures
        final(hub).wf(),
        final(hub)@ == drop_dev_spec(unbind_spec(old(hub)@, sid@, devid@), sid@),
        actions(out@) == unbind_actions(old(hub)@, sid@, devid@) + seq![
            Action::Ack(true, PayloadV::Text("unset - "@ + devid@)),
        ],
{
    let mut out = hub.unbind(sid, devid);
    let ghost mid = actions(out@);
    let _ = hub.remove_dev(sid);
    let msg = "unset - ".to_string().concat(devid.as_str());
    out.push(Outbound::Ack(true, Payload::Text(msg)));
    assert(actions(out@) =~= mid + seq![Action::Ack(true, PayloadV::Text("unset - "@ + devid@))]);
    out
}

/// `heartbeatping`: a bound sender's whole topic room, itself included,
/// gets `heartbeatpong`.
pub fn on_heartbeatping(hub: &Hub, sid: &String) -> (out: Vec<Outbound>)
    requires
        hub.wf(),
    ensures
        actions(out@) == (if hub@.topics.contains_key(sid@) {
            seq![
                Action::Emit(
                    TargetV::RoomAndSender(hub@.topics[sid@].0),
                    Event::HeartbeatPong,
                    PayloadV::Empty,
                ),
            ]
        } else {
            seq![]
        }),
{
    let mut out: Vec<Outbound> = Vec::new();
    if let Some(title) = bound_title(hub, sid) {
        out.push(Outbound::Emit(Target::RoomAndSender(title), Event::HeartbeatPong, Payload::Empty));
    }
    assert(actions(out@) =~= (if hub@.topics.contains_key(sid@) {
        seq![
            Action::Emit(
                TargetV::RoomAndSender(hub@.topics[sid@].0),
                Event::HeartbeatPong,
                PayloadV::Empty,
            ),
        ]
    } else {
        seq![]
    }));
    out
}

/// `find`: the sender is device `devid` and binds to its own topic; any
/// stale lock on that topic is released.
pub fn on_find(hub: &mut Hub, sid: &String, devid: &String) -> (out: Vec<Outbound>)
    requires
        old(hub).wf(),
    ensures
        final(hub).wf(),
        ({
            let v1 = bind_spec(old(hub)@, sid@, devid@, sid@);
            final(hub)@ == HubView {
                devs: if v1.devs.contains_key(sid@) || v1.users.contains_key(sid@) {
                    v1.devs
                } else {
                    v1.devs.insert(sid@, devid@)
                },
                speakers: v1.speakers.remove(devid@),
                ..v1
            }
        }),
        actions(out@) == bind_actions(old(hub)@, sid@, devid@),
{
    let out = hub.bind(sid, devid, sid.clone());
    hub.add_dev(sid, devid);
    hub.release_speaker(devid);
    out
}

/// `watch`: where device `devid` is online, the sender binds to its topic
/// and the whole room hears `join` with the sender's id; else the sender
/// gets `nodev`.
pub fn on_watch(hub: &mut Hub, sid: &String, devid: &String) -> (out: Vec<Outbound>)
    requires
        old(hub).wf(),
    ensures
        final(hub).wf(),
        !old(hub)@.devs.values().contains(devid@) ==> final(hub)@ == old(hub)@ && actions(out@)
            == seq![Action::Emit(TargetV::Sender, Event::NoDev, PayloadV::Null)],
        old(hub)@.devs.values().contains(devid@) ==> exists|tid: Seq<char>|
            #![trigger old(hub)@.devs[tid]]
            old(hub)@.devs.contains_key(tid) && old(hub)@.devs[tid] == devid@ && final(hub)@
                == bind_spec(old(hub)@, sid@, devid@, tid) && actions(out@) == bind_actions(
                old(hub)@,
                sid@,
                devid@,
            ) + seq![Action::Emit(TargetV::RoomAndSender(devid@), Event::Join, PayloadV::Id(sid@))],
        forall|d: Seq<char>|
            #[trigger] sole_device(old(hub)@.devs, devid@, d) ==> final(hub)@.topics.contains_key(
                sid@,
            ) && final(hub)@.topics[sid@] == (devid@, d) && final(hub)@.rooms.contains(
                (devid@, sid@),
            ),
{
    match hub.devs().getcamid(devid) {
        None => {
            let mut out: Vec<Outbound> = Vec::new();
            out.push(Outbound::Emit(Target::Sender, Event::NoDev, Payload::Null));
            assert(actions(out@) =~= seq![
                Action::Emit(TargetV::Sender, Event::NoDev, PayloadV::Null),
            ]);
            out
        },
        Some(tid) => {
            let ghost t = tid@;
            let ghost v0 = hub@;
            let mut out = hub.bind(sid, devid, tid);
            let ghost mid = actions(out@);
            out.push(
                Outbound::Emit(Target::RoomAndSender(devid.clone()), Event::Join, Payload::Id(sid.clone())),
            );
            assert forall|d: Seq<char>| #[trigger] sole_device(v0.devs, devid@, d) implies hub@.topics.contains_key(
                sid@,
            ) && hub@.topics[sid@] == (devid@, d) && hub@.rooms.contains((devid@, sid@)) by {
                assert(v0.devs.contains_key(t) && v0.devs[t] == devid@);
            }
            assert(actions(out@) =~= mid + seq![
                Action::Emit(TargetV::RoomAndSender(devid@), Event::Join, PayloadV::Id(sid@)),
            ]);
            out
        },
    }
}

/// `speakerid`: for a bound sender, an identifier of sixteen characters
/// that is a connection id claims the topic's speaker lock (first claim
/// wins, and the outcome says which); any other length releases it.
pub fn on_speakerid(hub: &mut Hub, sid: &String, speaker: String) -> (r: SpeakerOutcome)
    requires
        old(hub).wf(),
    ensures
        final(hub).wf(),
        !old(hub)@.topics.contains_key(sid@) ==> r == SpeakerOutcome::Unbound && final(hub)@
            == old(hub)@,
        old(hub)@.topics.contains_key(sid@) ==> ({
            let title = old(hub)@.topics[sid@].0;
            if speaker@.len() != 16 {
                r == SpeakerOutcome::Released && final(hub)@ == HubView {
                    speakers: old(hub)@.speakers.remove(title),
                    ..old(hub)@
                }
            } else if !is_sid_text(speaker@) {
                r == SpeakerOutcome::Malformed && final(hub)@ == old(hub)@
            } else {
                final(hub)@ == HubView {
                    speakers: claim(old(hub)@.speakers, title, speaker@),
                    ..old(hub)@
                } && (r == (if old(hub)@.speakers.contains_key(title) {
                    SpeakerOutcome::Refused
                } else {
                    SpeakerOutcome::Claimed
                }))
            }
        }),
{
    let title = match bound_title(hub, sid) {
        Some(t) => t,
        None => {
            return SpeakerOutcome::Unbound;
        },
    };
    if speaker.as_str().unicode_len() != 16 {
        hub.release_speaker(&title);
        return SpeakerOutcome::Released;
    }
    if !is_sid(&speaker) {
        return SpeakerOutcome::Malformed;
    }
    if hub.claim_speaker(speaker, &title) {
        SpeakerOutcome::Claimed
    } else {
        SpeakerOutcome::Refused
    }
}

/// `auth`: a bound sender's topic peers get `approve` with its id.
pub fn on_auth(hub: &Hub, sid: &String) -> (out: Vec<Outbound>)
    requires
        hub.wf(),
    ensures
        actions(out@) == to_topic(hub@, sid@, Event::Approve, PayloadV::Id(sid@)),
{
    let mut out: Vec<Outbound> = Vec::new();
    if let Some(title) = bound_title(hub, sid) {
        out.push(Outbound::Emit(Target::Room(title), Event::Approve, Payload::Id(sid.clone())));
    }
    assert(actions(out@) =~= to_topic(hub@, sid@, Event::Approve, PayloadV::Id(sid@)));
    out
}

/// `accept`: a bound sender's topic peers get `bridge` with the event's
/// payload.
pub fn on_accept(hub: &Hub, sid: &String) -> (out: Vec<Outbound>)
    requires
        hub.wf(),
    ensures
        actions(out@) == to_topic(hub@, sid@, Event::Bridge, PayloadV::Inbound),
{
    let mut out: Vec<Outbound> = Vec::new();
    if let Some(title) = bound_title(hub, sid) {
        out.push(Outbound::Emit(Target::Room(title), Event::Bridge, Payload::Inbound));
    }
    assert(actions(out@) =~= to_topic(hub@, sid@, Event::Bridge, PayloadV::Inbound));
    out
}

/// `speech`: a bound sender is always answered with a failure; where the
/// topic's speaker lock is free, its topic peers also get `speaking` with
/// the event's payload.
pub fn on_speech(hub: &Hub, sid: &String) -> (out: Vec<Outbound>)
    requires
        hub.wf(),
    ensures
        !hub@.topics.contains_key(sid@) ==> out@.len() == 0,
        hub@.topics.contains_key(sid@) ==> ({
            let title = hub@.topics[sid@].0;
            let fail = Action::Ack(false, PayloadV::Text("Failed"@));
            actions(out@) == if hub@.speakers.contains_key(title) {
                seq![fail]
            } else {
                seq![fail, Action::Emit(TargetV::Room(title), Event::Speaking, PayloadV::Inbound)]
            }
        }),
{
    let mut out: Vec<Outbound> = Vec::new();
    let title = match bound_title(hub, sid) {
        Some(t) => t,
        None => {
            return out;
        },
    };
    let held = hub.devs().has_speaker(&title);
    out.push(Outbound::Ack(false, Payload::Text("Failed".to_string())));
    if !held {
        out.push(Outbound::Emit(Target::Room(title), Event::Speaking, Payload::Inbound));
    }
    proof {
        let t = hub@.topics[sid@].0;
        let fail = Action::Ack(false, PayloadV::Text("Failed"@));
        if held {
            assert(actions(out@) =~= seq![fail]);
        } else {
            assert(actions(out@) =~= seq![
                fail,
                Action::Emit(TargetV::Room(t), Event::Speaking, PayloadV::Inbound),
            ]);
        }
    }
    out
}

/// `hang`: a bound sender's topic peers get `hangup` with the event's
/// payload.
pub fn on_hang(hub: &Hub, sid: &String) -> (out: Vec<Outbound>)
    requires
        hub.wf(),
    ensures
        actions(out@) == to_topic(hub@, sid@, Event::Hangup, PayloadV::Inbound),
{
    let mut out: Vec<Outbound> = Vec::new();
    if let Some(title) = bound_title(hub, sid) {
        out.push(Outbound::Emit(Target::Room(title), Event::Hangup, Payload::Inbound));
    }
    assert(actions(out@) =~= to_topic(hub@, sid@, Event::Hangup, PayloadV::Inbound));
    out
}

/// `reject`: a bound sender's topic peers get `full` with a null payload.
pub fn on_reject(hub: &Hub, sid: &String) -> (out: Vec<Outbound>)
    requires
        hub.wf(),
    ensures
        actions(out@) == to_topic(hub@, sid@, Event::Full, PayloadV::Null),
{
    let mut out: Vec<Outbound> = Vec::new();
    if let Some(title) = bound_title(hub, sid) {
        out.push(Outbound::Emit(Target::Room(title), Event::Full, Payload::Null));
    }
    assert(actions(out@) =~= to_topic(hub@, sid@, Event::Full, PayloadV::Null));
    out
}

/// `leave`: where the sender is in room `devid` it hangs up there, leaves,
/// and its topic record goes.
pub fn on_leave(hub: &mut Hub, sid: &String, devid: &String) -> (out: Vec<Outbound>)
    requires
        old(hub).wf(),
    ensures
        final(hub).wf(),
        final(hub)@ == unbind_spec(old(hub)@, sid@, devid@),
        actions(out@) == unbind_actions(old(hub)@, sid@, devid@),
{
    hub.unbind(sid, devid)
}

/// Disconnect: a bound connection's topic peers get one `hangup` with its
/// id; it leaves every room; as a user it is forgotten and every remaining
/// user room hears `userOffline`; as a device it is forgotten and its
/// device's lock is released.
pub fn on_disconnect(hub: &mut Hub, sid: &String) -> (out: Vec<Outbound>)
    requires
        old(hub).wf(),
    ensures
        final(hub).wf(),
        final(hub)@ == disconnect_spec(old(hub)@, sid@),
        ({
            let head = to_topic(old(hub)@, sid@, Event::Hangup, PayloadV::Id(sid@));
            &&& out@.len() >= head.len()
            &&& actions(out@).take(head.len() as int) == head
            &&& if old(hub)@.users.contains_key(sid@) {
                is_fanout(
                    actions(out@).skip(head.len() as int),
                    final(hub)@.users.values(),
                    Event::UserOffline,
                    PayloadV::Id(sid@),
                )
            } else {
                out@.len() == head.len()
            }
        }),
        count_emits(actions(out@), Event::Hangup) == (if old(hub)@.topics.contains_key(sid@) {
            1nat
        } else {
            0nat
        }),
{
    let ghost v0 = hub@;
    let ghost head = to_topic(v0, sid@, Event::Hangup, PayloadV::Id(sid@));
    let mut out: Vec<Outbound> = Vec::new();
    if let Some(title) = bound_title(hub, sid) {
        out.push(Outbound::Emit(Target::Room(title), Event::Hangup, Payload::Id(sid.clone())));
    }
    assert(actions(out@) =~= head);
    hub.drop_connection(sid);
    let was_user = hub.users().contains(sid);
    let ghost tail_names: Seq<Seq<char>> = seq![];
    if was_user {
        hub.remove_user(sid);
        let names = hub.users().val();
        notify_rooms(&mut out, &names, Event::UserOffline, sid);
        proof {
            tail_names = views(names@);
        }
    }
    let _ = hub.remove_dev(sid);
    proof {
        let tail = fanout(tail_names, Event::UserOffline, PayloadV::Id(sid@));
        if !was_user {
            assert(tail =~= seq![]);
        }
        assert(actions(out@) =~= head + tail);
        assert(actions(out@).take(head.len() as int) =~= head);
        assert(actions(out@).skip(head.len() as int) =~= tail);
        lemma_count_emits_append(head, tail, Event::Hangup);
        lemma_count_fanout(tail_names, Event::UserOffline, PayloadV::Id(sid@), Event::Hangup);
        if v0.topics.contains_key(sid@) {
            assert(head.drop_last() =~= Seq::<Action>::empty());
            assert(count_emits(head.drop_last(), Event::Hangup) == 0);
            assert(emits(head.last(), Event::Hangup));
        }
        if !v0.users.contains_key(sid@) {
            assert(v0.users.remove(sid@) =~= v0.users);
        }
        assert(hub@ == disconnect_spec(v0, sid@));
    }
    out
}

} // verus!
