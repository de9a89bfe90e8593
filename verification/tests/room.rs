use tincan::proto::{ChannelId, PeerId, MAX_CHAT_CHARS, MAX_NAME_CHARS};
use tincan::room::{Room, RoomError, CHAT_HISTORY};

fn room() -> Room {
    Room::new("test room", vec!["general".into(), "gaming".into()]).unwrap()
}

fn id(seed: u8) -> PeerId {
    PeerId([seed; 32])
}

#[test]
fn rejects_room_without_channels() {
    assert!(Room::new("x", vec![]).is_err());
    assert!(Room::new("x", vec!["  ".into()]).is_err());
}

#[test]
fn joining_peer_starts_outside_voice_channels() {
    let mut room = room();
    let name = room.join(id(1), "alice").unwrap();
    assert_eq!(name, "alice");

    let roster = room.roster();
    assert_eq!(roster.len(), 1);
    assert_eq!(roster[0].channel, None, "a newcomer must not auto-join voice");
    assert!(!roster[0].muted);
}

#[test]
fn duplicate_names_are_disambiguated_not_rejected() {
    let mut room = room();
    room.join(id(1), "alice").unwrap();
    let second = room.join(id(2), "Alice").unwrap();

    assert_ne!(second, "alice", "the second alice must be distinguishable");
    assert!(second.starts_with("Alice#"));
    assert_eq!(room.roster().len(), 2, "nobody gets excluded");
}

#[test]
fn rejoining_same_identity_refreshes_instead_of_duplicating() {
    let mut room = room();
    room.join(id(1), "alice").unwrap();
    room.switch_channel(&id(1), Some(ChannelId(1))).unwrap();

    let name = room.join(id(1), "alice2").unwrap();
    assert_eq!(name, "alice2");
    assert_eq!(room.roster().len(), 1, "one identity must not be listed twice");
    assert_eq!(room.get(&id(1)).unwrap().channel, None, "state must be reset");
}

#[test]
fn name_is_trimmed_and_capped() {
    let mut room = room();
    let long = "a".repeat(MAX_NAME_CHARS + 20);
    let name = room.join(id(1), &format!("  {long}  ")).unwrap();
    assert_eq!(name.chars().count(), MAX_NAME_CHARS);

    assert!(room.join(id(2), "   ").is_err(), "an empty name must be rejected");
    assert!(room.join(id(3), "\u{7}\u{7}").is_err(), "control characters do not make a name");
}

#[test]
fn switching_to_unknown_channel_fails_without_changing_state() {
    let mut room = room();
    room.join(id(1), "alice").unwrap();
    room.switch_channel(&id(1), Some(ChannelId(0))).unwrap();

    assert!(room.switch_channel(&id(1), Some(ChannelId(9))).is_err());
    assert_eq!(
        room.get(&id(1)).unwrap().channel,
        Some(ChannelId(0)),
        "a failed switch must not disturb the current channel"
    );
}

#[test]
fn channel_membership_drives_the_voice_mesh() {
    let mut room = room();
    room.join(id(1), "a").unwrap();
    room.join(id(2), "b").unwrap();
    room.join(id(3), "c").unwrap();
    room.switch_channel(&id(1), Some(ChannelId(0))).unwrap();
    room.switch_channel(&id(2), Some(ChannelId(0))).unwrap();
    room.switch_channel(&id(3), Some(ChannelId(1))).unwrap();

    assert_eq!(room.peers_in_channel(ChannelId(0)), vec![id(1), id(2)]);
    assert_eq!(room.peers_in_channel(ChannelId(1)), vec![id(3)]);

    room.switch_channel(&id(2), None).unwrap();
    assert_eq!(room.peers_in_channel(ChannelId(0)), vec![id(1)]);
}

#[test]
fn leaving_removes_peer_from_roster() {
    let mut room = room();
    room.join(id(1), "alice").unwrap();
    assert!(room.leave(&id(1)).is_some());
    assert!(room.roster().is_empty());
    assert!(room.leave(&id(1)).is_none(), "a second leave is ignored quietly");
}

#[test]
fn strangers_cannot_act() {
    let mut room = room();
    assert!(room.post_chat(&id(99), ChannelId(0), "hello", 1).is_err());
    assert!(room.switch_channel(&id(99), Some(ChannelId(0))).is_err());
    assert!(room.set_muted(&id(99), true).is_err());
}

#[test]
fn chat_is_validated() {
    let mut room = room();
    room.join(id(1), "alice").unwrap();

    let line = room.post_chat(&id(1), ChannelId(0), "  hey  ", 100).unwrap();
    assert_eq!(line.text, "hey", "leading/trailing space must be trimmed");
    assert_eq!(line.at, 100, "the timestamp must come from the coordinator");

    assert!(room.post_chat(&id(1), ChannelId(0), "   ", 1).is_err(), "empty message");
    assert!(room.post_chat(&id(1), ChannelId(5), "x", 1).is_err(), "no such channel");
    let long = "é".repeat(MAX_CHAT_CHARS + 1);
    assert!(room.post_chat(&id(1), ChannelId(0), &long, 1).is_err(), "long message");
}

#[test]
fn chat_history_is_bounded_and_ordered() {
    let mut room = room();
    room.join(id(1), "alice").unwrap();
    for i in 0..CHAT_HISTORY + 50 {
        room.post_chat(&id(1), ChannelId(0), &format!("message {i}"), i as u64).unwrap();
    }

    let history = room.snapshot().recent_chat;
    assert_eq!(history.len(), CHAT_HISTORY, "history must not grow without bound");
    assert_eq!(history.first().unwrap().text, "message 50", "the oldest drop off");
    assert_eq!(history.last().unwrap().text, format!("message {}", CHAT_HISTORY + 49));
}

#[test]
fn snapshot_carries_everything_a_newcomer_needs() {
    let mut room = room();
    room.join(id(1), "alice").unwrap();
    room.switch_channel(&id(1), Some(ChannelId(1))).unwrap();
    room.post_chat(&id(1), ChannelId(0), "hello", 5).unwrap();

    let snapshot = room.snapshot();
    assert_eq!(snapshot.room_name, "test room");
    assert_eq!(snapshot.channels, vec!["general", "gaming"]);
    assert_eq!(snapshot.peers.len(), 1);
    assert_eq!(snapshot.peers[0].channel, Some(ChannelId(1)));
    assert_eq!(snapshot.recent_chat.len(), 1);
}

// ── Further cases ────────────────────────────────────────────────────────────────

#[test]
fn every_refusal_names_its_error() {
    assert_eq!(Room::new("x", vec![]).err(), Some(RoomError::NoChannels));
    assert_eq!(Room::new("x", vec![" ".into()]).err(), Some(RoomError::EmptyChannelName));
    let many: Vec<String> = (0..256).map(|i| format!("c{i}")).collect();
    assert_eq!(Room::new("x", many).err(), Some(RoomError::TooManyChannels));

    let mut room = room();
    assert_eq!(room.join(id(1), " \t ").err(), Some(RoomError::EmptyName));
    assert_eq!(room.set_deafened(&id(1), true).err(), Some(RoomError::NotInRoom));
    room.join(id(1), "alice").unwrap();
    assert_eq!(room.switch_channel(&id(1), Some(ChannelId(7))).err(), Some(RoomError::NoSuchChannel { index: 7 }));
    assert_eq!(room.post_chat(&id(1), ChannelId(0), "  ", 1).err(), Some(RoomError::EmptyMessage));
    let long = "x".repeat(MAX_CHAT_CHARS + 3);
    assert_eq!(
        room.post_chat(&id(1), ChannelId(0), &long, 1).err(),
        Some(RoomError::MessageTooLong { chars: MAX_CHAT_CHARS + 3 })
    );
}

#[test]
fn refusals_read_as_sentences() {
    assert_eq!(RoomError::EmptyName.message(), "a nickname cannot be empty");
    assert_eq!(RoomError::NoSuchChannel { index: 9 }.message(), "no such channel: 9");
    assert_eq!(
        RoomError::MessageTooLong { chars: 2001 }.message(),
        "message too long (2001 characters, limit 2000)"
    );
    assert_eq!(RoomError::NotInRoom.message(), "you are not in the room");
}

#[test]
fn a_clashing_name_is_tagged_with_the_short_id() {
    let mut room = room();
    room.join(id(1), "alice").unwrap();
    let second = room.join(id(0xab), "ALICE").unwrap();
    assert_eq!(second, "ALICE#abab");
}

#[test]
fn control_characters_are_dropped_from_a_name() {
    let mut room = room();
    assert_eq!(room.join(id(1), "al\u{7}ice").unwrap(), "alice");
}

#[test]
fn the_roster_is_ordered_by_identity() {
    let mut room = room();
    room.join(id(3), "c").unwrap();
    room.join(id(1), "a").unwrap();
    room.join(id(2), "b").unwrap();
    let ids: Vec<PeerId> = room.roster().iter().map(|p| p.id).collect();
    assert_eq!(ids, vec![id(1), id(2), id(3)]);
}

#[test]
fn mute_and_deafen_are_recorded() {
    let mut room = room();
    room.join(id(1), "alice").unwrap();
    room.set_muted(&id(1), true).unwrap();
    room.set_deafened(&id(1), true).unwrap();
    let me = room.get(&id(1)).unwrap();
    assert!(me.muted && me.deafened);
}

#[test]
fn a_room_with_valid_channels_always_opens() {
    let room = Room::new("lobby", vec!["  general ".into(), "x".into()]).unwrap();
    assert_eq!(room.channels(), &["general".to_string(), "x".to_string()][..]);
}
