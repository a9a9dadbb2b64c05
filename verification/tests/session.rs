use std::sync::Arc;

use sio_session::codec::{Frame, Packet};
use sio_session::error::{ProtocolViolation, SessionError};
use sio_session::json::Json;
use sio_session::keepalive::{answer, pong_frame};
use sio_session::dispatch::{Delivery, Dispatcher};
use sio_session::session::{
    connect_frame, loaded_frame, Credential, Identity, Input, Outcome, Phase, Session,
};

const LOADED: &str = "42[\"loaded\",{\"success\":1,\"width\":1920,\"height\":1080,\"scale\":2}]";

fn credential() -> Arc<Credential> {
    Arc::new(Credential { name: "auth".to_string(), value: "SECRET-REDACTED".to_string() })
}

fn identity() -> Identity {
    Identity { character: "warrior".to_string(), server: "EUI".to_string() }
}

fn session() -> Session {
    Session::new(identity(), Some(credential())).unwrap()
}

fn frame(text: &str) -> Frame {
    Frame::Text(text.to_string())
}

fn session_in(phase: Phase) -> Session {
    let mut s = session();
    match phase {
        Phase::Unconnected => {}
        Phase::Negotiating => {
            s.on_frame(&frame("0"));
        }
        Phase::Connected => {
            s.on_frame(&frame("0"));
            s.on_frame(&frame("40[\"id\"]"));
        }
        Phase::Ready => {
            s.on_frame(&frame("0"));
            s.on_frame(&frame("40[\"id\"]"));
            s.on_frame(&frame("42[\"welcome\",{}]"));
        }
        Phase::Closed => {
            s.on_close();
        }
    }
    assert_eq!(s.phase(), phase);
    s
}

fn phases() -> Vec<Phase> {
    vec![Phase::Unconnected, Phase::Negotiating, Phase::Connected, Phase::Ready, Phase::Closed]
}

#[test]
fn a_new_session_is_unconnected() {
    let s = session();
    assert_eq!(s.phase(), Phase::Unconnected);
    assert_eq!(s.session_id(), &None);
    assert!(!s.is_closed());
    assert_eq!(s.credential(), &*credential());
    assert_eq!(s.identity(), &identity());
}

#[test]
fn no_session_without_a_credential() {
    assert_eq!(Session::new(identity(), None).err(), Some(SessionError::Precondition));
}

#[test]
fn negotiation_is_answered_with_a_connect_request() {
    let mut s = session();
    assert_eq!(s.on_frame(&frame("0{\"sid\":\"xyz\"}")), Outcome::Send("40".to_string()));
    assert_eq!(s.phase(), Phase::Negotiating);
    assert_eq!(s.session_id(), &None);
}

#[test]
fn connect_stores_the_session_id() {
    let mut s = session_in(Phase::Negotiating);
    assert_eq!(s.on_frame(&frame("40[\"xyz\"]")), Outcome::Idle);
    assert_eq!(s.phase(), Phase::Connected);
    assert_eq!(s.session_id(), &Some("xyz".to_string()));
}

#[test]
fn connect_without_an_id_still_connects() {
    let mut s = session_in(Phase::Negotiating);
    assert_eq!(s.on_frame(&frame("40")), Outcome::Idle);
    assert_eq!(s.phase(), Phase::Connected);
    assert_eq!(s.session_id(), &None);
}

#[test]
fn welcome_is_answered_with_the_readiness_announcement() {
    let mut s = session_in(Phase::Connected);
    assert_eq!(s.on_frame(&frame("42[\"welcome\",{}]")), Outcome::Send(LOADED.to_string()));
    assert_eq!(s.phase(), Phase::Ready);
    assert_eq!(s.session_id(), &Some("id".to_string()));
}

#[test]
fn the_fixed_frames() {
    assert_eq!(pong_frame(), "3");
    assert_eq!(connect_frame(), "40");
    assert_eq!(loaded_frame(), LOADED);
}

#[test]
fn ping_is_answered_in_every_phase() {
    for phase in phases() {
        let mut s = session_in(phase);
        assert_eq!(s.on_frame(&frame("2")), Outcome::Send("3".to_string()));
        assert_eq!(s.phase(), phase);
    }
}

#[test]
fn keepalive_answers_pings_only() {
    assert_eq!(answer(&Packet::Ping), Some("3".to_string()));
    assert_eq!(answer(&Packet::Pong), None);
    assert_eq!(answer(&Packet::Negotiation), None);
    assert_eq!(answer(&Packet::Connect { session_id: None }), None);
    assert_eq!(answer(&Packet::Event { name: Some("ping".to_string()), payload: None }), None);
    assert_eq!(answer(&Packet::Unknown { code: 2222, text: String::new() }), None);
}

#[test]
fn pong_asks_for_nothing() {
    for phase in phases() {
        let mut s = session_in(phase);
        assert_eq!(s.on_frame(&frame("3")), Outcome::Idle);
        assert_eq!(s.phase(), phase);
    }
}

#[test]
fn an_unknown_packet_goes_to_the_dispatcher() {
    for phase in phases() {
        let mut s = session_in(phase);
        assert_eq!(
            s.on_frame(&frame("99garbage")),
            Outcome::Deliver(Packet::Unknown { code: 99, text: "garbage".to_string() })
        );
        assert_eq!(s.phase(), phase);
    }
}

#[test]
fn the_dispatcher_receives_an_unknown_packet() {
    let mut s = session_in(Phase::Connected);
    let mut d = Dispatcher::new();
    d.register("garbage", 1);
    match s.on_frame(&frame("99garbage")) {
        Outcome::Deliver(packet) => assert_eq!(
            d.dispatch(packet),
            Delivery {
                packet: Packet::Unknown { code: 99, text: "garbage".to_string() },
                reactions: vec![],
            }
        ),
        other => panic!("not delivered: {:?}", other),
    }
    assert_eq!(s.phase(), Phase::Connected);
}

#[test]
fn an_event_under_another_name_goes_to_the_dispatcher() {
    for phase in phases() {
        let mut s = session_in(phase);
        assert_eq!(
            s.on_frame(&frame("42[\"hit\",{\"hp\":3}]")),
            Outcome::Deliver(Packet::Event {
                name: Some("hit".to_string()),
                payload: Some(Json::Object(vec![(
                    "hp".to_string(),
                    Json::Number(serde_json::Number::from(3u64)),
                )])),
            })
        );
        assert_eq!(s.phase(), phase);
    }
}

#[test]
fn an_event_without_a_name_goes_to_the_dispatcher() {
    let mut s = session_in(Phase::Connected);
    assert_eq!(
        s.on_frame(&frame("42[7]")),
        Outcome::Deliver(Packet::Event { name: None, payload: None })
    );
    assert_eq!(s.phase(), Phase::Connected);
}

#[test]
fn a_frame_without_a_code_closes_the_session() {
    let mut s = session_in(Phase::Connected);
    assert_eq!(
        s.on_frame(&frame("abc")),
        Outcome::Fail(SessionError::Protocol(ProtocolViolation::MissingCode))
    );
    assert_eq!(s.phase(), Phase::Closed);
    assert!(s.is_closed());
}

#[test]
fn a_frame_that_is_not_text_closes_the_session() {
    let mut s = session_in(Phase::Ready);
    assert_eq!(
        s.on_frame(&Frame::Binary(vec![1, 2, 3])),
        Outcome::Fail(SessionError::Protocol(ProtocolViolation::NonTextFrame))
    );
    assert_eq!(s.phase(), Phase::Closed);
}

#[test]
fn a_probe_of_the_transport_is_no_text_frame() {
    let mut s = session_in(Phase::Ready);
    assert_eq!(
        s.on_frame(&Frame::Ping(vec![])),
        Outcome::Fail(SessionError::Protocol(ProtocolViolation::NonTextFrame))
    );
    assert_eq!(s.phase(), Phase::Closed);
}

#[test]
fn a_remainder_that_is_no_json_closes_the_session() {
    let mut s = session_in(Phase::Ready);
    assert_eq!(
        s.on_frame(&frame("42[\"e\"")),
        Outcome::Fail(SessionError::Protocol(ProtocolViolation::InvalidJson))
    );
    assert_eq!(s.phase(), Phase::Closed);
}

#[test]
fn a_code_that_is_too_large_closes_the_session() {
    let mut s = session_in(Phase::Ready);
    assert_eq!(
        s.on_frame(&frame("18446744073709551616")),
        Outcome::Fail(SessionError::Protocol(ProtocolViolation::CodeTooLarge))
    );
    assert_eq!(s.phase(), Phase::Closed);
}

#[test]
fn connect_before_negotiation_is_out_of_sequence() {
    let mut s = session();
    assert_eq!(
        s.on_frame(&frame("40[\"xyz\"]")),
        Outcome::Fail(SessionError::Protocol(ProtocolViolation::OutOfSequence))
    );
    assert_eq!(s.phase(), Phase::Closed);
    assert_eq!(s.session_id(), &None);
}

#[test]
fn welcome_before_connect_is_out_of_sequence() {
    for phase in [Phase::Unconnected, Phase::Negotiating] {
        let mut s = session_in(phase);
        assert_eq!(
            s.on_frame(&frame("42[\"welcome\",{}]")),
            Outcome::Fail(SessionError::Protocol(ProtocolViolation::OutOfSequence))
        );
        assert_eq!(s.phase(), Phase::Closed);
    }
}

#[test]
fn a_repeated_handshake_packet_is_out_of_sequence() {
    let mut s = session_in(Phase::Negotiating);
    assert_eq!(
        s.on_frame(&frame("0")),
        Outcome::Fail(SessionError::Protocol(ProtocolViolation::OutOfSequence))
    );
    assert_eq!(s.phase(), Phase::Closed);

    let mut s = session_in(Phase::Connected);
    assert_eq!(
        s.on_frame(&frame("40[\"other\"]")),
        Outcome::Fail(SessionError::Protocol(ProtocolViolation::OutOfSequence))
    );
    assert_eq!(s.phase(), Phase::Closed);
    assert_eq!(s.session_id(), &Some("id".to_string()));

    let mut s = session_in(Phase::Ready);
    assert_eq!(
        s.on_frame(&frame("42[\"welcome\",{}]")),
        Outcome::Fail(SessionError::Protocol(ProtocolViolation::OutOfSequence))
    );
    assert_eq!(s.phase(), Phase::Closed);
}

#[test]
fn a_closed_session_stays_closed() {
    for text in ["0", "40[\"x\"]", "42[\"welcome\",{}]", "2", "3", "42[\"e\"]", "7", "abc"] {
        let mut s = session_in(Phase::Closed);
        s.on_frame(&frame(text));
        assert_eq!(s.phase(), Phase::Closed);
    }
}

#[test]
fn identity_and_credential_stay_as_they_were() {
    let mut s = session();
    for text in ["0", "40[\"x\"]", "2", "42[\"e\"]", "42[\"welcome\"]", "abc"] {
        s.on_frame(&frame(text));
        assert_eq!(s.identity(), &identity());
        assert_eq!(s.credential(), &*credential());
    }
}

#[test]
fn closing_the_transport_closes_the_session() {
    for phase in phases() {
        let mut s = session_in(phase);
        s.on_close();
        assert_eq!(s.phase(), Phase::Closed);
    }
}

#[test]
fn a_failing_transport_closes_the_session_and_is_reported() {
    for phase in phases() {
        let mut s = session_in(phase);
        assert_eq!(s.on_failure(), Outcome::Fail(SessionError::Transport));
        assert_eq!(s.phase(), Phase::Closed);
    }
}

#[test]
fn step_takes_whatever_the_transport_reports() {
    let mut s = session();
    assert_eq!(s.step(&Input::Frame(frame("0"))), Outcome::Send("40".to_string()));
    assert_eq!(s.phase(), Phase::Negotiating);
    assert_eq!(s.step(&Input::Frame(frame("2"))), Outcome::Send("3".to_string()));
    assert_eq!(s.step(&Input::Closed), Outcome::Idle);
    assert_eq!(s.phase(), Phase::Closed);

    let mut s = session();
    assert_eq!(s.step(&Input::Failed), Outcome::Fail(SessionError::Transport));
    assert_eq!(s.phase(), Phase::Closed);

    let mut s = session();
    assert_eq!(
        s.step(&Input::Frame(frame("abc"))),
        Outcome::Fail(SessionError::Protocol(ProtocolViolation::MissingCode))
    );
    assert_eq!(s.phase(), Phase::Closed);
}

#[test]
fn on_packet_takes_a_decoded_packet() {
    let mut s = session();
    assert_eq!(s.on_packet(Packet::Negotiation), Outcome::Send("40".to_string()));
    assert_eq!(
        s.on_packet(Packet::Connect { session_id: Some("k".to_string()) }),
        Outcome::Idle
    );
    assert_eq!(
        s.on_packet(Packet::Event { name: Some("welcome".to_string()), payload: None }),
        Outcome::Send(LOADED.to_string())
    );
    assert_eq!(s.phase(), Phase::Ready);
    assert_eq!(s.session_id(), &Some("k".to_string()));
}

#[test]
fn the_whole_handshake_in_order() {
    let mut s = session();
    let mut sent = Vec::new();
    for text in ["0{\"sid\":\"xyz\",\"pingInterval\":25000}", "40[\"xyz\"]", "2", "42[\"welcome\",{}]", "2"] {
        if let Outcome::Send(out) = s.on_frame(&frame(text)) {
            sent.push(out);
        }
    }
    assert_eq!(sent, vec!["40".to_string(), "3".to_string(), LOADED.to_string(), "3".to_string()]);
    assert_eq!(s.phase(), Phase::Ready);
}
