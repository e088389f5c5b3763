//! What a handler asks the transport to do: join or leave a room, emit an
//! event, answer the sender's acknowledgement, or forward and wait.
use vstd::prelude::*;

verus! {

/// How long a forwarded message waits for its acknowledgement, in seconds.
pub const ACK_TIMEOUT_SECS: u64 = 5;

/// The outbound event names.
#[derive(PartialEq, Eq, Structural, Clone, Copy, Debug)]
pub enum Event {
    UserOnline,
    UserOffline,
    RefreshUsers,
    Hangup,
    Join,
    HeartbeatPong,
    Approve,
    Bridge,
    Speaking,
    Full,
    OnlineDev,
    NoDev,
    Message,
}

/// The wire name of an event.
pub open spec fn event_name(e: Event) -> Seq<char> {
    match e {
        Event::UserOnline => "userOnline"@,
        Event::UserOffline => "userOffline"@,
        Event::RefreshUsers => "refreshUsers"@,
        Event::Hangup => "hangup"@,
        Event::Join => "join"@,
        Event::HeartbeatPong => "heartbeatpong"@,
        Event::Approve => "approve"@,
        Event::Bridge => "bridge"@,
        Event::Speaking => "speaking"@,
        Event::Full => "full"@,
        Event::OnlineDev => "onlinedev"@,
        Event::NoDev => "nodev"@,
        Event::Message => "message"@,
    }
}

impl Event {
    /// The wire name of this event.
    pub fn name(&self) -> (r: &'static str)
        ensures
            r@ == event_name(*self),
    {
        match self {
            Event::UserOnline => "userOnline",
            Event::UserOffline => "userOffline",
            Event::RefreshUsers => "refreshUsers",
            Event::Hangup => "hangup",
            Event::Join => "join",
            Event::HeartbeatPong => "heartbeatpong",
            Event::Approve => "approve",
            Event::Bridge => "bridge",
            Event::Speaking => "speaking",
            Event::Full => "full",
            Event::OnlineDev => "onlinedev",
            Event::NoDev => "nodev",
            Event::Message => "message",
        }
    }
}

/// Who receives an emitted event.
#[derive(Debug)]
pub enum Target {
    /// The connection whose event is being handled.
    Sender,
    /// The members of a room but the sender.
    Room(String),
    /// The members of a room, the sender included.
    RoomAndSender(String),
}

/// The data carried by an outbound event or acknowledgement.
#[derive(Debug)]
pub enum Payload {
    /// A connection id.
    Id(String),
    /// A line of text.
    Text(String),
    /// A list of names.
    Names(Vec<String>),
    /// A list of (connection id, display name) pairs.
    Users(Vec<(String, String)>),
    /// The payload of the event being handled, unchanged.
    Inbound,
    /// JSON null.
    Null,
    /// No data.
    Empty,
}

/// One thing for the transport to do, in order.
#[derive(Debug)]
pub enum Outbound {
    /// Put the sender in a room.
    Join(String),
    /// Take the sender out of a room.
    Leave(String),
    /// Emit an event.
    Emit(Target, Event, Payload),
    /// Answer the sender's acknowledgement with `{success, message}`.
    Ack(bool, Payload),
    /// Forward the inbound payload as an event to the other members of a
    /// room and wait, up to the given seconds, for one acknowledgement.
    Request(String, Event, u64),
    /// Answer the sender's acknowledgement with the one received, verbatim.
    Relay,
}

/// The model of a `Target`.
pub enum TargetV {
    Sender,
    Room(Seq<char>),
    RoomAndSender(Seq<char>),
}

/// The model of a `Payload`.
pub enum PayloadV {
    Id(Seq<char>),
    Text(Seq<char>),
    Names(Seq<Seq<char>>),
    Users(Seq<(Seq<char>, Seq<char>)>),
    Inbound,
    Null,
    Empty,
}

/// The model of an `Outbound`.
pub enum Action {
    Join(Seq<char>),
    Leave(Seq<char>),
    Emit(TargetV, Event, PayloadV),
    Ack(bool, PayloadV),
    Request(Seq<char>, Event, u64),
    Relay,
}

impl View for Target {
    type V = TargetV;

    open spec fn view(&self) -> TargetV {
        match self {
            Target::Sender => TargetV::Sender,
            Target::Room(r) => TargetV::Room(r@),
            Target::RoomAndSender(r) => TargetV::RoomAndSender(r@),
        }
    }
}

impl View for Payload {
    type V = PayloadV;

    open spec fn view(&self) -> PayloadV {
        match self {
            Payload::Id(s) => PayloadV::Id(s@),
            Payload::Text(s) => PayloadV::Text(s@),
            Payload::Names(v) => PayloadV::Names(v@.map_values(|x: String| x@)),
            Payload::Users(v) => PayloadV::Users(
                v@.map_values(|p: (String, String)| (p.0@, p.1@)),
            ),
            Payload::Inbound => PayloadV::Inbound,
            Payload::Null => PayloadV::Null,
            Payload::Empty => PayloadV::Empty,
        }
    }
}

impl View for Outbound {
    type V = Action;

    open spec fn view(&self) -> Action {
        match self {
            Outbound::Join(r) => Action::Join(r@),
            Outbound::Leave(r) => Action::Leave(r@),
            Outbound::Emit(t, e, p) => Action::Emit(t@, *e, p@),
            Outbound::Ack(ok, p) => Action::Ack(*ok, p@),
            Outbound::Request(r, e, secs) => Action::Request(r@, *e, *secs),
            Outbound::Relay => Action::Relay,
        }
    }
}

/// The models of a list of outbound steps.
pub open spec fn actions(s: Seq<Outbound>) -> Seq<Action> {
    s.map_values(|o: Outbound| o@)
}

/// An emit of `ev` with `p` to the other members of each room in `names`.
pub open spec fn fanout(names: Seq<Seq<char>>, ev: Event, p: PayloadV) -> Seq<Action> {
    names.map_values(|n: Seq<char>| Action::Emit(TargetV::Room(n), ev, p))
}

/// `acts` emits `ev` with `p` once to each room named in `names`, in some
/// order.
pub open spec fn is_fanout(acts: Seq<Action>, names: Set<Seq<char>>, ev: Event, p: PayloadV) -> bool {
    exists|ns: Seq<Seq<char>>|
        #![trigger fanout(ns, ev, p)]
        ns.no_duplicates() && ns.to_set() == names && acts == fanout(ns, ev, p)
}

/// Whether `a` emits event `ev`.
pub open spec fn emits(a: Action, ev: Event) -> bool {
    a matches Action::Emit(_, e, _) && e == ev
}

/// How many steps of `s` emit `ev`.
pub open spec fn count_emits(s: Seq<Action>, ev: Event) -> nat
    decreases s.len(),
{
    if s.len() == 0 {
        0
    } else {
        count_emits(s.drop_last(), ev) + if emits(s.last(), ev) {
            1nat
        } else {
            0nat
        }
    }
}

pub proof fn lemma_count_emits_append(a: Seq<Action>, b: Seq<Action>, ev: Event)
    ensures
        count_emits(a + b, ev) == count_emits(a, ev) + count_emits(b, ev),
    decreases b.len(),
{
    if b.len() == 0 {
        assert(a + b =~= a);
    } else {
        assert((a + b).drop_last() =~= a + b.drop_last());
        lemma_count_emits_append(a, b.drop_last(), ev);
    }
}

pub proof fn lemma_count_fanout(names: Seq<Seq<char>>, e: Event, p: PayloadV, ev: Event)
    requires
        e != ev,
    ensures
        count_emits(fanout(names, e, p), ev) == 0,
    decreases names.len(),
{
    if names.len() > 0 {
        assert(fanout(names, e, p).drop_last() =~= fanout(names.drop_last(), e, p));
        lemma_count_fanout(names.drop_last(), e, p, ev);
    }
}

} // verus!
