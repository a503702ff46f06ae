use gateway::registry::RoomRegistry;
use gateway::session::{
    binary_envelope, hex_encode, on_delivery, on_frame, Delivery, Forward, Frame, Phase, Session,
    Step,
};

#[test]
fn hex_encoding_is_lower_case_pairs() {
    assert_eq!(hex_encode(&[]), "");
    assert_eq!(hex_encode(&[0x00, 0x0f, 0xa5, 0xff]), "000fa5ff");
}

#[test]
fn binary_frames_become_envelopes() {
    assert_eq!(binary_envelope(&[1, 2, 0xab]), "{\"type\":\"binary\",\"data\":\"0102ab\"}");
    match on_frame(Frame::Binary(vec![0xde, 0xad])) {
        Step::Publish(m) => {
            assert_eq!(m, "{\"type\":\"binary\",\"data\":\"dead\"}");
            assert!(m.starts_with("{\"type\":\"binary\""));
        }
        _ => panic!("binary frame was not published"),
    }
}

#[test]
fn text_is_published_verbatim() {
    assert!(matches!(on_frame(Frame::Text("hi".to_string())), Step::Publish(m) if m == "hi"));
}

#[test]
fn control_frames() {
    assert!(matches!(on_frame(Frame::Ping(vec![1])), Step::Continue));
    assert!(matches!(on_frame(Frame::Pong(vec![])), Step::Continue));
    assert!(matches!(on_frame(Frame::Close), Step::Stop));
    assert!(matches!(on_frame(Frame::Error), Step::Stop));
}

#[test]
fn lag_is_skipped() {
    assert!(matches!(on_delivery(Delivery::Message("m".to_string())), Forward::Send(s) if s == "m"));
    assert!(matches!(on_delivery(Delivery::Lagged(3)), Forward::Skip));
    assert!(matches!(on_delivery(Delivery::Closed), Forward::Stop));
}

#[test]
fn session_phases() {
    let mut reg = RoomRegistry::new();
    let (ticket, channel) = reg.join("r").unwrap();
    let mut s = Session::new(ticket);
    assert_eq!(s.phase, Phase::Admitted);
    assert!(!s.receive(Frame::Text("early".to_string()), &channel));
    s.start();
    assert_eq!(s.phase, Phase::Active);
    assert!(s.receive(Frame::Pong(vec![]), &channel));
    assert!(!s.receive(Frame::Close, &channel));
    assert_eq!(s.phase, Phase::Closing);
    assert!(s.finish(&mut reg));
    assert_eq!(s.phase, Phase::Closed);
    assert!(!reg.contains_room("r"));
    assert!(!s.finish(&mut reg));
}

#[test]
fn forward_failure_closes() {
    let mut reg = RoomRegistry::new();
    let (ticket, _channel) = reg.join("r").unwrap();
    let mut s = Session::new(ticket);
    s.start();
    s.forward_failed();
    assert_eq!(s.phase, Phase::Closing);
}
