use tjsignal::socketio::handlers::{
    message_reply, on_accept, on_auth, on_boxconf, on_checkbox, on_checkdev, on_disconnect,
    on_fetchuser, on_find, on_hang, on_heartbeatping, on_identify, on_leave, on_message,
    on_reject, on_signout, on_speakerid, on_speech, on_unset, on_watch, speaker_ack, SpeakerOutcome,
};
use tjsignal::socketio::hub::Hub;
use tjsignal::socketio::outbound::{Event, Outbound, Payload, Target, ACK_TIMEOUT_SECS};

fn s(x: &str) -> String {
    x.to_string()
}

fn is_emit(o: &Outbound, target: &Target, ev: Event) -> bool {
    match o {
        Outbound::Emit(t, e, _) => {
            *e == ev
                && match (t, target) {
                    (Target::Sender, Target::Sender) => true,
                    (Target::Room(a), Target::Room(b)) => a == b,
                    (Target::RoomAndSender(a), Target::RoomAndSender(b)) => a == b,
                    _ => false,
                }
        }
        _ => false,
    }
}

fn id_payload(o: &Outbound) -> Option<String> {
    match o {
        Outbound::Emit(_, _, Payload::Id(x)) => Some(x.clone()),
        _ => None,
    }
}

fn count(out: &[Outbound], ev: Event) -> usize {
    out.iter().filter(|o| matches!(o, Outbound::Emit(_, e, _) if *e == ev)).count()
}

fn users_of(o: &Outbound) -> Vec<(String, String)> {
    match o {
        Outbound::Emit(_, _, Payload::Users(v)) => {
            let mut v = v.clone();
            v.sort();
            v
        }
        _ => panic!("not a user list: {:?}", o),
    }
}

/// A device connection `d` online as `dev`, and a viewer `v` watching it.
fn device_and_viewer(hub: &mut Hub, d: &str, dev: &str, v: &str) {
    on_find(hub, &s(d), &s(dev));
    on_watch(hub, &s(v), &s(dev));
}

#[test]
fn checkbox_sorts_and_keeps_unbound() {
    let mut hub = Hub::new();
    on_find(&mut hub, &s("d1"), &s("foo"));
    on_find(&mut hub, &s("d2"), &s("UnboundX"));
    let out = on_checkbox(&hub, &vec![s("foo"), s("bar")]);
    assert_eq!(out.len(), 1);
    match &out[0] {
        Outbound::Ack(true, Payload::Names(n)) => assert_eq!(n, &vec![s("UnboundX"), s("foo")]),
        o => panic!("unexpected {:?}", o),
    }
}

#[test]
fn checkbox_with_no_devices_is_empty() {
    let hub = Hub::new();
    let out = on_checkbox(&hub, &vec![s("foo")]);
    match &out[0] {
        Outbound::Ack(true, Payload::Names(n)) => assert!(n.is_empty()),
        o => panic!("unexpected {:?}", o),
    }
}

#[test]
fn bind_then_unbind_leaves_nothing() {
    let mut hub = Hub::new();
    device_and_viewer(&mut hub, "d1", "cam1", "v1");
    assert!(hub.in_room(&s("cam1"), &s("v1")));
    assert!(hub.topic_of(&s("v1")).is_some());
    let out = on_leave(&mut hub, &s("v1"), &s("cam1"));
    assert!(hub.topic_of(&s("v1")).is_none());
    assert!(!hub.in_room(&s("cam1"), &s("v1")));
    assert_eq!(out.len(), 2);
    assert!(is_emit(&out[0], &Target::Room(s("cam1")), Event::Hangup));
    assert_eq!(id_payload(&out[0]), Some(s("v1")));
    assert!(matches!(&out[1], Outbound::Leave(r) if r == "cam1"));
}

#[test]
fn leave_of_a_room_not_joined_does_nothing() {
    let mut hub = Hub::new();
    device_and_viewer(&mut hub, "d1", "cam1", "v1");
    let out = on_leave(&mut hub, &s("v1"), &s("cam2"));
    assert!(out.is_empty());
    assert!(hub.topic_of(&s("v1")).is_some());
}

#[test]
fn disconnect_while_bound_hangs_up_once() {
    let mut hub = Hub::new();
    device_and_viewer(&mut hub, "d1", "cam1", "v1");
    let out = on_disconnect(&mut hub, &s("v1"));
    assert_eq!(count(&out, Event::Hangup), 1);
    assert!(is_emit(&out[0], &Target::Room(s("cam1")), Event::Hangup));
    assert_eq!(id_payload(&out[0]), Some(s("v1")));
    assert!(!hub.in_room(&s("cam1"), &s("v1")));
    assert!(hub.topic_of(&s("v1")).is_none());
}

#[test]
fn disconnect_while_unbound_hangs_up_never() {
    let mut hub = Hub::new();
    on_identify(&mut hub, &s("u1"), &s("alice"));
    on_identify(&mut hub, &s("u2"), &s("bob"));
    let out = on_disconnect(&mut hub, &s("u2"));
    assert_eq!(count(&out, Event::Hangup), 0);
    assert_eq!(out.len(), 1);
    assert!(is_emit(&out[0], &Target::Room(s("alice")), Event::UserOffline));
    assert_eq!(id_payload(&out[0]), Some(s("u2")));
    assert_eq!(hub.users().get(&s("u2")), None);
}

#[test]
fn disconnect_of_a_device_releases_its_lock() {
    let mut hub = Hub::new();
    on_find(&mut hub, &s("d1"), &s("cam1"));
    assert_eq!(on_speakerid(&mut hub, &s("d1"), s("AAAAAAAAAAAAAAAA")), SpeakerOutcome::Claimed);
    assert!(hub.devs().has_speaker(&s("cam1")));
    on_disconnect(&mut hub, &s("d1"));
    assert!(!hub.devs().has_speaker(&s("cam1")));
    assert_eq!(hub.devs().get(&s("d1")), None);
}

#[test]
fn identify_then_fetch_users() {
    let mut hub = Hub::new();
    let out1 = on_identify(&mut hub, &s("U1"), &s("alice"));
    assert!(matches!(&out1[0], Outbound::Join(r) if r == "alice"));
    assert_eq!(users_of(&out1[1]), vec![(s("U1"), s("alice"))]);
    let out2 = on_identify(&mut hub, &s("U2"), &s("bob"));
    let online: Vec<&Outbound> = out2
        .iter()
        .filter(|o| is_emit(o, &Target::Room(s("alice")), Event::UserOnline))
        .collect();
    assert_eq!(online.len(), 1);
    assert_eq!(users_of(online[0]), vec![(s("U2"), s("bob"))]);
    assert_eq!(count(&out2, Event::UserOnline), 2);
    for sid in ["U1", "U2"] {
        let _ = sid;
        let f = on_fetchuser(&hub);
        assert_eq!(f.len(), 1);
        assert!(is_emit(&f[0], &Target::Sender, Event::RefreshUsers));
        assert_eq!(users_of(&f[0]), vec![(s("U1"), s("alice")), (s("U2"), s("bob"))]);
    }
}

#[test]
fn signout_notifies_and_forgets() {
    let mut hub = Hub::new();
    on_identify(&mut hub, &s("U1"), &s("alice"));
    on_identify(&mut hub, &s("U2"), &s("bob"));
    let out = on_signout(&mut hub, &s("U2"));
    assert_eq!(count(&out, Event::UserOffline), 2);
    assert!(hub.users().get(&s("U2")).is_none());
    assert_eq!(users_of(&on_fetchuser(&hub)[0]), vec![(s("U1"), s("alice"))]);
}

#[test]
fn a_device_cannot_also_be_a_user() {
    let mut hub = Hub::new();
    on_find(&mut hub, &s("d1"), &s("cam1"));
    on_identify(&mut hub, &s("d1"), &s("mallory"));
    assert_eq!(hub.users().get(&s("d1")), None);
    assert_eq!(hub.devs().get(&s("d1")), Some(s("cam1")));
}

#[test]
fn find_watch_then_checkdev() {
    let mut hub = Hub::new();
    let f = on_find(&mut hub, &s("D"), &s("cam1"));
    assert_eq!(f.len(), 1);
    assert!(matches!(&f[0], Outbound::Join(r) if r == "cam1"));
    let w = on_watch(&mut hub, &s("V"), &s("cam1"));
    assert!(matches!(&w[0], Outbound::Join(r) if r == "cam1"));
    assert!(is_emit(&w[1], &Target::RoomAndSender(s("cam1")), Event::Join));
    assert_eq!(id_payload(&w[1]), Some(s("V")));
    assert_eq!(hub.topic_of(&s("V")).map(|t| t.tid), Some(s("D")));
    let c = on_checkdev(&hub, &vec![s("cam1")]);
    assert_eq!(c.len(), 1);
    match &c[0] {
        Outbound::Emit(Target::Sender, Event::OnlineDev, Payload::Names(n)) => {
            assert_eq!(n, &vec![s("cam1")])
        }
        o => panic!("unexpected {:?}", o),
    }
}

#[test]
fn checkdev_ignores_empty_requests_and_unbound_names() {
    let mut hub = Hub::new();
    on_find(&mut hub, &s("D"), &s("UnboundY"));
    assert!(on_checkdev(&hub, &vec![]).is_empty());
    match &on_checkdev(&hub, &vec![s("cam1")])[0] {
        Outbound::Emit(_, Event::OnlineDev, Payload::Names(n)) => assert!(n.is_empty()),
        o => panic!("unexpected {:?}", o),
    }
}

#[test]
fn watch_of_an_unknown_device() {
    let mut hub = Hub::new();
    let w = on_watch(&mut hub, &s("V"), &s("cam9"));
    assert_eq!(w.len(), 1);
    assert!(is_emit(&w[0], &Target::Sender, Event::NoDev));
    assert!(matches!(&w[0], Outbound::Emit(_, _, Payload::Null)));
    assert!(hub.topic_of(&s("V")).is_none());
}

#[test]
fn message_without_ack_fails_once() {
    let mut hub = Hub::new();
    device_and_viewer(&mut hub, "P", "cam1", "S");
    let out = on_message(&hub, &s("S"));
    assert_eq!(out.len(), 1);
    match &out[0] {
        Outbound::Request(room, Event::Message, secs) => {
            assert_eq!(room, "cam1");
            assert_eq!(*secs, 5);
            assert_eq!(ACK_TIMEOUT_SECS, 5);
        }
        o => panic!("unexpected {:?}", o),
    }
    match message_reply(false) {
        Outbound::Ack(false, Payload::Text(m)) => assert_eq!(m, "Failed to send message"),
        o => panic!("unexpected {:?}", o),
    }
    assert!(matches!(message_reply(true), Outbound::Relay));
}

#[test]
fn message_from_an_unbound_sender_goes_nowhere() {
    let hub = Hub::new();
    assert!(on_message(&hub, &s("S")).is_empty());
}

#[test]
fn boxconf_unknown_and_known() {
    let mut hub = Hub::new();
    let out = on_boxconf(&mut hub, &s("C"), &s("box1"));
    match &out[0] {
        Outbound::Ack(false, Payload::Text(m)) => assert_eq!(m, "No box found for conf: box1"),
        o => panic!("unexpected {:?}", o),
    }
    assert!(hub.topic_of(&s("C")).is_none());
    on_find(&mut hub, &s("B"), &s("box1"));
    let out = on_boxconf(&mut hub, &s("C"), &s("box1"));
    assert_eq!(out.len(), 2);
    assert!(matches!(&out[0], Outbound::Join(r) if r == "box1"));
    match &out[1] {
        Outbound::Ack(true, Payload::Text(m)) => assert_eq!(m, "Configuring: box1"),
        o => panic!("unexpected {:?}", o),
    }
    let t = hub.topic_of(&s("C")).unwrap();
    assert_eq!((t.title, t.tid), (s("box1"), s("B")));
}

#[test]
fn unset_hangs_up_and_forgets_the_device() {
    let mut hub = Hub::new();
    on_find(&mut hub, &s("D"), &s("cam1"));
    on_speakerid(&mut hub, &s("D"), s("AAAAAAAAAAAAAAAA"));
    let out = on_unset(&mut hub, &s("D"), &s("cam1"));
    assert_eq!(out.len(), 3);
    assert!(is_emit(&out[0], &Target::Room(s("cam1")), Event::Hangup));
    assert!(matches!(&out[1], Outbound::Leave(r) if r == "cam1"));
    match &out[2] {
        Outbound::Ack(true, Payload::Text(m)) => assert_eq!(m, "unset - cam1"),
        o => panic!("unexpected {:?}", o),
    }
    assert!(hub.devs().get(&s("D")).is_none());
    assert!(!hub.devs().has_speaker(&s("cam1")));
    assert!(hub.topic_of(&s("D")).is_none());
}

#[test]
fn unset_outside_the_room_only_acknowledges() {
    let mut hub = Hub::new();
    let out = on_unset(&mut hub, &s("X"), &s("cam1"));
    assert_eq!(out.len(), 1);
    assert!(matches!(&out[0], Outbound::Ack(true, _)));
}

#[test]
fn speakerid_claims_refuses_releases() {
    let mut hub = Hub::new();
    assert_eq!(on_speakerid(&mut hub, &s("V"), s("AAAAAAAAAAAAAAAA")), SpeakerOutcome::Unbound);
    device_and_viewer(&mut hub, "D", "cam1", "V");
    assert_eq!(on_speakerid(&mut hub, &s("V"), s("AAAAAAAAAAAAAAAA")), SpeakerOutcome::Claimed);
    assert_eq!(on_speakerid(&mut hub, &s("D"), s("BBBBBBBBBBBBBBBB")), SpeakerOutcome::Refused);
    assert_eq!(on_speakerid(&mut hub, &s("V"), s("a!bcdefghijklmno")), SpeakerOutcome::Malformed);
    assert!(hub.devs().has_speaker(&s("cam1")));
    assert_eq!(on_speakerid(&mut hub, &s("V"), s("")), SpeakerOutcome::Released);
    assert!(!hub.devs().has_speaker(&s("cam1")));
    assert_eq!(on_speakerid(&mut hub, &s("D"), s("B-B_BBBBBBBBBBB9")), SpeakerOutcome::Claimed);
}

#[test]
fn speech_always_fails_but_may_broadcast() {
    let mut hub = Hub::new();
    device_and_viewer(&mut hub, "D", "cam1", "V");
    let out = on_speech(&hub, &s("V"));
    assert_eq!(out.len(), 2);
    match &out[0] {
        Outbound::Ack(false, Payload::Text(m)) => assert_eq!(m, "Failed"),
        o => panic!("unexpected {:?}", o),
    }
    assert!(is_emit(&out[1], &Target::Room(s("cam1")), Event::Speaking));
    on_speakerid(&mut hub, &s("V"), s("AAAAAAAAAAAAAAAA"));
    let out = on_speech(&hub, &s("V"));
    assert_eq!(out.len(), 1);
    assert!(matches!(&out[0], Outbound::Ack(false, _)));
    assert!(on_speech(&hub, &s("nobody")).is_empty());
}

#[test]
fn relays_to_the_topic_room() {
    let mut hub = Hub::new();
    device_and_viewer(&mut hub, "D", "cam1", "V");
    let hb = on_heartbeatping(&hub, &s("V"));
    assert!(is_emit(&hb[0], &Target::RoomAndSender(s("cam1")), Event::HeartbeatPong));
    let a = on_auth(&hub, &s("V"));
    assert!(is_emit(&a[0], &Target::Room(s("cam1")), Event::Approve));
    assert_eq!(id_payload(&a[0]), Some(s("V")));
    let b = on_accept(&hub, &s("V"));
    assert!(is_emit(&b[0], &Target::Room(s("cam1")), Event::Bridge));
    assert!(matches!(&b[0], Outbound::Emit(_, _, Payload::Inbound)));
    let h = on_hang(&hub, &s("V"));
    assert!(is_emit(&h[0], &Target::Room(s("cam1")), Event::Hangup));
    let r = on_reject(&hub, &s("V"));
    assert!(is_emit(&r[0], &Target::Room(s("cam1")), Event::Full));
    for out in [
        on_heartbeatping(&hub, &s("X")),
        on_auth(&hub, &s("X")),
        on_accept(&hub, &s("X")),
        on_hang(&hub, &s("X")),
        on_reject(&hub, &s("X")),
    ] {
        assert!(out.is_empty());
    }
}

#[test]
fn rebinding_leaves_the_old_room() {
    let mut hub = Hub::new();
    on_find(&mut hub, &s("D1"), &s("cam1"));
    on_find(&mut hub, &s("D2"), &s("cam2"));
    on_watch(&mut hub, &s("V"), &s("cam1"));
    let out = on_watch(&mut hub, &s("V"), &s("cam2"));
    assert!(is_emit(&out[0], &Target::Room(s("cam1")), Event::Hangup));
    assert!(matches!(&out[1], Outbound::Leave(r) if r == "cam1"));
    assert!(matches!(&out[2], Outbound::Join(r) if r == "cam2"));
    assert!(!hub.in_room(&s("cam1"), &s("V")));
    assert!(hub.in_room(&s("cam2"), &s("V")));
}

#[test]
fn event_wire_names() {
    assert_eq!(Event::UserOnline.name(), "userOnline");
    assert_eq!(Event::RefreshUsers.name(), "refreshUsers");
    assert_eq!(Event::HeartbeatPong.name(), "heartbeatpong");
    assert_eq!(Event::OnlineDev.name(), "onlinedev");
    assert_eq!(Event::Hangup.name(), "hangup");
}

#[test]
fn unset_drops_a_record_naming_another_topic() {
    let mut hub = Hub::new();
    on_find(&mut hub, &s("D"), &s("cam2"));
    on_identify(&mut hub, &s("V"), &s("cam1"));
    on_watch(&mut hub, &s("V"), &s("cam2"));
    assert_eq!(hub.topic_of(&s("V")).map(|t| t.title), Some(s("cam2")));
    let out = on_unset(&mut hub, &s("V"), &s("cam1"));
    assert!(is_emit(&out[0], &Target::Room(s("cam1")), Event::Hangup));
    assert!(matches!(&out[1], Outbound::Leave(r) if r == "cam1"));
    assert!(hub.topic_of(&s("V")).is_none());
    assert!(!hub.in_room(&s("cam1"), &s("V")));
}

#[test]
fn leave_drops_a_record_naming_another_topic() {
    let mut hub = Hub::new();
    on_find(&mut hub, &s("D"), &s("cam2"));
    on_identify(&mut hub, &s("V"), &s("cam1"));
    on_watch(&mut hub, &s("V"), &s("cam2"));
    let out = on_leave(&mut hub, &s("V"), &s("cam1"));
    assert_eq!(out.len(), 2);
    assert!(hub.topic_of(&s("V")).is_none());
}

#[test]
fn watch_records_the_device_connection_as_origin() {
    let mut hub = Hub::new();
    on_find(&mut hub, &s("D"), &s("cam1"));
    on_watch(&mut hub, &s("V"), &s("cam1"));
    let t = hub.topic_of(&s("V")).unwrap();
    assert_eq!((t.title, t.tid), (s("cam1"), s("D")));
    assert!(hub.in_room(&s("cam1"), &s("V")));
    assert!(hub.in_room(&s("cam1"), &s("D")));
}

#[test]
fn losing_claimant_is_told() {
    match speaker_ack(SpeakerOutcome::Refused) {
        Some(Outbound::Ack(false, Payload::Text(m))) => assert_eq!(m, "Failed"),
        o => panic!("unexpected {:?}", o),
    }
    assert!(matches!(speaker_ack(SpeakerOutcome::Claimed), Some(Outbound::Ack(true, Payload::Null))));
    assert!(speaker_ack(SpeakerOutcome::Released).is_none());
    assert!(speaker_ack(SpeakerOutcome::Unbound).is_none());
}

#[test]
fn decode_rejects_text_that_is_not_sixteen_digits() {
    assert_eq!(tjsignal::db::decode_oid(&s("AAAAAAAAAAAAAAA")), None);
    assert_eq!(tjsignal::db::decode_oid(&s("AAAAAAAAAAAAAAAAAAAA")), None);
    assert_eq!(tjsignal::db::decode_oid(&s("AAAAAAAAAAAAAAAA")), Some([0u8; 12]));
}
