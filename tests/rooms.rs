use gateway::admission::{room_for, TokenClaims};
use gateway::registry::RoomRegistry;
use gateway::session::{Frame, Session};

#[test]
fn same_room_echoes_to_everyone() {
    let mut reg = RoomRegistry::new();
    let (ta, ca) = reg.join("room").unwrap();
    let (tb, cb) = reg.join("room").unwrap();
    assert_eq!(ta.generation, tb.generation);
    let mut rx_a = ca.subscribe();
    let mut rx_b = cb.subscribe();
    let mut a = Session::new(ta);
    a.start();
    assert!(a.receive(Frame::Text("hello".to_string()), &ca));
    assert_eq!(rx_a.try_recv().unwrap(), "hello");
    assert_eq!(rx_b.try_recv().unwrap(), "hello");
}

#[test]
fn rooms_are_isolated() {
    let mut reg = RoomRegistry::new();
    let (tx, cx) = reg.join("x").unwrap();
    let (ty, cy) = reg.join("y").unwrap();
    assert_ne!(tx.generation, ty.generation);
    let mut rx_y = cy.subscribe();
    let mut rx_x = cx.subscribe();
    let mut a = Session::new(tx);
    a.start();
    assert!(a.receive(Frame::Text("only x".to_string()), &cx));
    assert_eq!(rx_x.try_recv().unwrap(), "only x");
    assert!(rx_y.try_recv().is_err());
}

#[test]
fn binary_reaches_others_as_envelope() {
    let mut reg = RoomRegistry::new();
    let (ta, ca) = reg.join("room").unwrap();
    let (_tb, cb) = reg.join("room").unwrap();
    let mut rx_b = cb.subscribe();
    let mut a = Session::new(ta);
    a.start();
    assert!(a.receive(Frame::Binary(vec![0x01, 0xff]), &ca));
    assert_eq!(rx_b.try_recv().unwrap(), "{\"type\":\"binary\",\"data\":\"01ff\"}");
}

#[test]
fn last_leave_removes_room_and_rejoin_is_fresh() {
    let mut reg = RoomRegistry::new();
    let (t1, c1) = reg.join("room").unwrap();
    let mut old_rx = c1.subscribe();
    c1.send("stale".to_string()).unwrap();
    assert!(reg.leave(&t1));
    assert!(!reg.contains_room("room"));
    assert_eq!(reg.subscriber_count("room"), 0);
    let (t2, c2) = reg.join("room").unwrap();
    assert_ne!(t1.generation, t2.generation);
    let mut new_rx = c2.subscribe();
    assert!(new_rx.try_recv().is_err());
    assert_eq!(old_rx.try_recv().unwrap(), "stale");
    assert_eq!(reg.subscriber_count("room"), 1);
}

#[test]
fn stale_ticket_leaves_new_room_alone() {
    let mut reg = RoomRegistry::new();
    let (t1, _c1) = reg.join("room").unwrap();
    assert!(reg.leave(&t1));
    let (_t2, _c2) = reg.join("room").unwrap();
    assert!(!reg.leave(&t1));
    assert_eq!(reg.subscriber_count("room"), 1);
}

#[test]
fn alice_and_bob_share_a_room() {
    let mut reg = RoomRegistry::new();
    let alice = TokenClaims { sub: "alice".to_string(), exp: 0, room: None };
    let bob = TokenClaims {
        sub: "bob".to_string(),
        exp: 0,
        room: Some("user:alice".to_string()),
    };
    let room_a = room_for(&alice);
    let room_b = room_for(&bob);
    assert_eq!(room_a, "user:alice");
    assert_eq!(room_b, "user:alice");

    let (ta, ca) = reg.join(&room_a).unwrap();
    let (tb, cb) = reg.join(&room_b).unwrap();
    let mut rx_a = ca.subscribe();
    let mut rx_b = cb.subscribe();
    let mut a = Session::new(ta);
    let mut b = Session::new(tb);
    a.start();
    b.start();
    assert!(a.receive(Frame::Text("hi".to_string()), &ca));
    assert_eq!(rx_a.try_recv().unwrap(), "hi");
    assert_eq!(rx_b.try_recv().unwrap(), "hi");

    assert!(!b.receive(Frame::Close, &cb));
    assert!(!b.finish(&mut reg));
    assert_eq!(reg.subscriber_count("user:alice"), 1);

    assert!(!a.receive(Frame::Close, &ca));
    assert!(a.finish(&mut reg));
    assert_eq!(reg.subscriber_count("user:alice"), 0);
    assert!(!reg.contains_room("user:alice"));
}
