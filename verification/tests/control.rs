use tincan::auth::{password_proof, random_nonce};
use tincan::net::control::{answer_hello, apply, into_wire, wire_to_event, ControlError};
use tincan::net::{Command, Event};
use tincan::proto::{ChannelId, ChatLine, PeerId, ToCoordinator, ToPeer};
use tincan::room::{Room, RoomError};

fn id(seed: u8) -> PeerId {
    PeerId([seed; 32])
}

fn room() -> Room {
    Room::new("lobby", vec!["general".into(), "gaming".into()]).unwrap()
}

fn hello(name: &str, password: &str, nonce: &[u8; 16]) -> ToCoordinator {
    ToCoordinator::Hello { name: name.into(), proof: password_proof(password, nonce).unwrap() }
}

#[test]
fn the_right_password_is_welcomed_and_announced() {
    let mut room = room();
    room.join(id(1), "host").unwrap();
    let nonce = random_nonce().unwrap();
    let admission = answer_hello(&mut room, "pw", &nonce, id(2), hello("bob", "pw", &nonce)).unwrap();

    match admission.reply {
        ToPeer::Welcome { you, room: snapshot } => {
            assert_eq!(you, id(2));
            assert_eq!(snapshot.room_name, "lobby");
            assert_eq!(snapshot.peers.len(), 2);
        }
        other => panic!("expected a welcome, got {other:?}"),
    }
    assert_eq!(admission.broadcast.len(), 2);
    assert_eq!(admission.broadcast[0], ToPeer::Notice { text: "bob joined the room".into() });
    assert!(matches!(&admission.broadcast[1], ToPeer::Roster { peers } if peers.len() == 2));
}

#[test]
fn wrong_password_is_refused_and_changes_nothing() {
    let mut room = room();
    let nonce = random_nonce().unwrap();
    let admission = answer_hello(&mut room, "pw", &nonce, id(2), hello("bob", "nope", &nonce)).unwrap();
    assert_eq!(admission.reply, ToPeer::Rejected { reason: "wrong room password".into() });
    assert!(admission.broadcast.is_empty());
    assert!(room.roster().is_empty());
}

#[test]
fn a_proof_for_another_nonce_is_refused() {
    let mut room = room();
    let nonce = [1u8; 16];
    let other = [2u8; 16];
    let admission = answer_hello(&mut room, "pw", &nonce, id(2), hello("bob", "pw", &other)).unwrap();
    assert!(matches!(admission.reply, ToPeer::Rejected { .. }));
}

#[test]
fn an_empty_name_is_refused_with_the_reason() {
    let mut room = room();
    let nonce = random_nonce().unwrap();
    let admission = answer_hello(&mut room, "", &nonce, id(2), hello("   ", "", &nonce)).unwrap();
    assert_eq!(admission.reply, ToPeer::Rejected { reason: "a nickname cannot be empty".into() });
    assert!(room.roster().is_empty());
}

#[test]
fn anything_but_hello_ends_the_handshake() {
    let mut room = room();
    assert!(answer_hello(&mut room, "", &[0; 16], id(2), ToCoordinator::Leave).is_none());
}

#[test]
fn the_host_and_the_network_go_through_the_same_door() {
    let mut room = room();
    room.join(id(1), "host").unwrap();
    let out = apply(&mut room, id(1), into_wire(Command::SwitchChannel(Some(ChannelId(1)))), 7).unwrap();
    assert!(matches!(&out[..], [ToPeer::Roster { peers }] if peers[0].channel == Some(ChannelId(1))));

    let out = apply(&mut room, id(1), into_wire(Command::Chat { channel: ChannelId(0), text: " hi ".into() }), 9).unwrap();
    assert_eq!(out, vec![ToPeer::Chat(ChatLine { channel: ChannelId(0), from: id(1), text: "hi".into(), at: 9 })]);
}

#[test]
fn refusals_leave_the_room_as_it_was() {
    let mut room = room();
    room.join(id(1), "host").unwrap();
    assert_eq!(
        apply(&mut room, id(1), ToCoordinator::SwitchChannel { channel: Some(ChannelId(5)) }, 1),
        Err(ControlError::Room(RoomError::NoSuchChannel { index: 5 }))
    );
    assert_eq!(apply(&mut room, id(9), ToCoordinator::SetMuted { muted: true }, 1), Err(ControlError::Room(RoomError::NotInRoom)));
    assert_eq!(
        apply(&mut room, id(1), ToCoordinator::Hello { name: "x".into(), proof: [0; 32] }, 1),
        Err(ControlError::AlreadyGreeted)
    );
    assert_eq!(room.get(&id(1)).unwrap().channel, None);
}

#[test]
fn leaving_says_who_left_and_a_second_leave_says_nothing() {
    let mut room = room();
    room.join(id(1), "host").unwrap();
    room.join(id(2), "bob").unwrap();
    let out = apply(&mut room, id(2), into_wire(Command::Quit), 1).unwrap();
    assert_eq!(out[0], ToPeer::Notice { text: "bob left the room".into() });
    assert!(matches!(&out[1], ToPeer::Roster { peers } if peers.len() == 1));
    assert!(apply(&mut room, id(2), ToCoordinator::Leave, 1).unwrap().is_empty());
}

#[test]
fn only_what_the_interface_needs_becomes_an_event() {
    assert_eq!(wire_to_event(ToPeer::Notice { text: "x".into() }), Some(Event::Notice("x".into())));
    assert_eq!(wire_to_event(ToPeer::Rejected { reason: "no".into() }), Some(Event::Disconnected("no".into())));
    assert_eq!(wire_to_event(ToPeer::Challenge { nonce: [0; 16] }), None);
    assert_eq!(into_wire(Command::SetDeafened(true)), ToCoordinator::SetDeafened { deafened: true });
}

use tincan::net::control::{challenge_nonce, host_step, route, welcome_of, HostStep, JoinError, Route};
use tincan::proto::{RoomSnapshot, ALPN, VOICE_ALPN};

#[test]
fn the_host_quitting_closes_the_room_for_everyone() {
    let mut room = room();
    room.join(id(1), "host").unwrap();
    match host_step(&mut room, id(1), Command::Quit, 1) {
        HostStep::Closing { notice } => {
            assert_eq!(notice, ToPeer::Notice { text: "the room is closing — the coordinator left".into() })
        }
        _ => panic!("quitting must close the room"),
    }
    assert_eq!(room.roster().len(), 1, "the room itself is left as it was");
}

#[test]
fn a_refused_host_command_reaches_only_the_host() {
    let mut room = room();
    room.join(id(1), "host").unwrap();
    match host_step(&mut room, id(1), Command::SwitchChannel(Some(ChannelId(9))), 1) {
        HostStep::Refused(Event::Notice(text)) => assert_eq!(text, "that did not work: no such channel: 9"),
        _ => panic!("expected a refusal"),
    }
    match host_step(&mut room, id(1), Command::SetMuted(true), 1) {
        HostStep::Broadcast(out) => assert!(matches!(&out[..], [ToPeer::Roster { .. }])),
        _ => panic!("expected a broadcast"),
    }
}

#[test]
fn the_handshake_reads_the_challenge_then_the_welcome() {
    assert_eq!(challenge_nonce(ToPeer::Challenge { nonce: [4; 16] }), Ok([4; 16]));
    assert_eq!(challenge_nonce(ToPeer::Notice { text: "hi".into() }), Err(JoinError::UnexpectedGreeting));

    let snapshot = RoomSnapshot { room_name: "r".into(), channels: vec![], peers: vec![], recent_chat: vec![] };
    assert_eq!(welcome_of(ToPeer::Welcome { you: id(3), room: snapshot.clone() }), Ok((id(3), snapshot)));
    let refused = welcome_of(ToPeer::Rejected { reason: "wrong room password".into() }).unwrap_err();
    assert_eq!(refused.message(), "you were not let into the room: wrong room password");
    assert_eq!(welcome_of(ToPeer::Challenge { nonce: [0; 16] }), Err(JoinError::UnexpectedReply));
}

#[test]
fn connections_are_routed_by_their_protocol() {
    assert_eq!(route(VOICE_ALPN.as_bytes(), true, true), Route::Voice);
    assert_eq!(route(VOICE_ALPN.as_bytes(), true, false), Route::Ignore, "audio is off");
    assert_eq!(route(ALPN.as_bytes(), true, true), Route::Control);
    assert_eq!(route(ALPN.as_bytes(), false, true), Route::Ignore, "only the coordinator runs the room");
}
