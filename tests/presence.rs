use tjsignal::socketio::state::{OnlineDevs, OnlineUsers};

fn s(x: &str) -> String {
    x.to_string()
}

#[test]
fn user_add_first_write_wins() {
    let mut users = OnlineUsers::new();
    assert!(users.add(s("sidA"), s("alice")));
    assert!(!users.add(s("sidA"), s("bob")));
    assert_eq!(users.get(&s("sidA")), Some(s("alice")));
    assert_eq!(users.get(&s("sidB")), None);
}

#[test]
fn entries_follow_adds_and_removes() {
    let mut users = OnlineUsers::new();
    users.add(s("u1"), s("alice"));
    users.add(s("u2"), s("bob"));
    users.add(s("u3"), s("carol"));
    users.remove(&s("u2"));
    users.add(s("u4"), s("dave"));
    users.remove(&s("u4"));
    let mut e = users.entries();
    e.sort();
    assert_eq!(e, vec![(s("u1"), s("alice")), (s("u3"), s("carol"))]);
    users.add(s("u2"), s("bobby"));
    let mut e = users.entries();
    e.sort();
    assert_eq!(e, vec![(s("u1"), s("alice")), (s("u2"), s("bobby")), (s("u3"), s("carol"))]);
}

#[test]
fn remove_absent_is_a_no_op() {
    let mut users = OnlineUsers::new();
    users.add(s("u1"), s("alice"));
    users.remove(&s("nobody"));
    assert_eq!(users.entries(), vec![(s("u1"), s("alice"))]);
    assert!(users.contains(&s("u1")));
}

#[test]
fn values_are_distinct() {
    let mut users = OnlineUsers::new();
    users.add(s("u1"), s("alice"));
    users.add(s("u2"), s("alice"));
    users.add(s("u3"), s("bob"));
    let mut v = users.val();
    v.sort();
    assert_eq!(v, vec![s("alice"), s("bob")]);
}

#[test]
fn empty_registry_lists_nothing() {
    let users = OnlineUsers::new();
    assert!(users.entries().is_empty());
    assert!(users.val().is_empty());
}

#[test]
fn speaker_claim_is_exclusive() {
    let mut devs = OnlineDevs::new();
    assert!(devs.speaker_on(s("AAAAAAAAAAAAAAAA"), &s("dev1")));
    assert!(!devs.speaker_on(s("BBBBBBBBBBBBBBBB"), &s("dev1")));
    assert!(devs.has_speaker(&s("dev1")));
    devs.speaker_off(&s("dev1"));
    assert!(!devs.has_speaker(&s("dev1")));
    devs.speaker_off(&s("dev1"));
    assert!(devs.speaker_on(s("BBBBBBBBBBBBBBBB"), &s("dev1")));
}

#[test]
fn device_lookup_by_name() {
    let mut devs = OnlineDevs::new();
    devs.add(s("d1"), s("cam1"));
    devs.add(s("d2"), s("cam2"));
    assert_eq!(devs.getcamid(&s("cam2")), Some(s("d2")));
    assert_eq!(devs.getcamid(&s("cam3")), None);
    assert_eq!(devs.get(&s("d1")), Some(s("cam1")));
    devs.remove(&s("d1"));
    assert_eq!(devs.get(&s("d1")), None);
    assert_eq!(devs.val(), vec![s("cam2")]);
}
