use tincan::audio::device::AudioDeviceInfo;
use tincan::audio::MicTest;
use tincan::net::Event;
use tincan::proto::{ChannelId, ChatLine, PeerId, PeerInfo, RoomSnapshot};
use tincan::ui::state::{App, VISIBLE_HISTORY};
use tincan::ui::{Line, SettingsSection, ViewMode};

fn peer(seed: u8, channel: Option<ChannelId>) -> PeerInfo {
    PeerInfo { id: PeerId([seed; 32]), name: format!("user{seed}"), channel, muted: false, deafened: false }
}

fn welcomed() -> App {
    let mut app = App::new(PeerId([1; 32]), "kod".into());
    app.apply(
        Event::Welcome {
            me: PeerId([1; 32]),
            room: RoomSnapshot {
                room_name: "oda".into(),
                channels: vec!["general".into(), "gaming".into(), "music".into()],
                peers: vec![peer(1, None), peer(2, Some(ChannelId(1)))],
                recent_chat: vec![],
            },
        },
        0,
    );
    app
}

fn said(channel: u8, from: u8, text: &str, at: u64) -> Event {
    Event::Chat(ChatLine { channel: ChannelId(channel), from: PeerId([from; 32]), text: text.into(), at })
}

fn texts(app: &App) -> Vec<String> {
    app.visible_lines()
        .iter()
        .map(|line| match line {
            Line::Chat(c) => c.text.clone(),
            Line::Notice { text, .. } => text.clone(),
        })
        .collect()
}

#[test]
fn welcome_populates_the_room() {
    let app = welcomed();
    assert_eq!(app.room_name, "oda");
    assert_eq!(app.channels.len(), 3);
    assert_eq!(app.peers.len(), 2);
    assert_eq!(app.viewing, ChannelId(0));
    assert_eq!(app.voice, None, "voice must not be joined automatically");
}

#[test]
fn settings_toggle_and_navigation() {
    let mut app = welcomed();
    assert_eq!(app.view_mode, ViewMode::Chat);

    assert!(app.toggle_settings());
    assert_eq!(app.view_mode, ViewMode::Settings);
    assert_eq!(app.settings_section, SettingsSection::InputDevice);

    app.settings_next_section(true);
    assert_eq!(app.settings_section, SettingsSection::OutputDevice);
    app.settings_next_section(true);
    assert_eq!(app.settings_section, SettingsSection::MicTest);
    app.settings_next_section(true);
    assert_eq!(app.settings_section, SettingsSection::Typing);
    app.settings_next_section(true);
    assert_eq!(app.settings_section, SettingsSection::InputDevice);
    app.settings_next_section(false);
    assert_eq!(app.settings_section, SettingsSection::Typing);

    assert!(!app.toggle_settings());
    assert_eq!(app.view_mode, ViewMode::Chat);
    assert_eq!(app.mic_test, MicTest::Off);
}

fn device(name: &str, is_default: bool) -> AudioDeviceInfo {
    AudioDeviceInfo { name: name.into(), sample_rate: 48000, channels: 1, is_default, is_supported: true }
}

#[test]
fn settings_item_navigation() {
    let mut app = welcomed();
    app.input_devices = vec![device("Mic 1", true), device("Mic 2", false)];
    app.settings_section = SettingsSection::InputDevice;
    assert_eq!(app.selected_input_idx, 0);

    app.settings_navigate_item(true);
    assert_eq!(app.selected_input_idx, 1);
    app.settings_navigate_item(true);
    assert_eq!(app.selected_input_idx, 0);
    app.settings_navigate_item(false);
    assert_eq!(app.selected_input_idx, 1);
}

#[test]
fn viewing_and_voice_channels_are_independent() {
    let mut app = welcomed();
    app.apply(Event::Roster(vec![peer(1, Some(ChannelId(2))), peer(2, Some(ChannelId(1)))]), 0);

    assert_eq!(app.voice, Some(ChannelId(2)), "the voice channel comes from the roster");
    assert_eq!(app.viewing, ChannelId(0), "the viewed channel must not change");

    app.view_next(true);
    assert_eq!(app.viewing, ChannelId(1));
    assert_eq!(app.voice, Some(ChannelId(2)), "browsing must not move the voice channel");
}

#[test]
fn a_channel_you_are_not_reading_is_marked_and_then_cleared() {
    let mut app = welcomed();
    app.apply(said(1, 2, "over here", 1), 0);
    assert!(app.unread.contains(&ChannelId(1)));

    app.view_next(true);
    assert_eq!(app.viewing, ChannelId(1));
    assert!(app.unread.is_empty(), "looking at a channel is what reading it means");
}

#[test]
fn the_channel_in_front_of_you_and_your_own_words_are_never_unread() {
    let mut app = welcomed();
    app.apply(said(0, 2, "right here", 1), 0);
    assert!(app.unread.is_empty(), "you are looking straight at it");

    app.apply(said(1, 1, "mine", 2), 0);
    assert!(app.unread.is_empty(), "you do not need telling about your own message");
}

#[test]
fn every_settings_section_can_be_reached_in_both_directions() {
    let mut app = welcomed();
    let mut seen = vec![app.settings_section];
    for _ in 0..3 {
        app.settings_next_section(true);
        seen.push(app.settings_section);
    }
    assert_eq!(seen.len(), 4);
    seen.sort_by_key(|section| format!("{section:?}"));
    seen.dedup();
    assert_eq!(seen.len(), 4, "tab must reach all four, not loop through three");

    app.settings_next_section(true);
    assert_eq!(app.settings_section, SettingsSection::InputDevice, "and wrap");
    app.settings_next_section(false);
    assert_eq!(app.settings_section, SettingsSection::Typing, "in both directions");
}

#[test]
fn channel_view_wraps_in_both_directions() {
    let mut app = welcomed();
    app.view_next(false);
    assert_eq!(app.viewing, ChannelId(2), "must wrap backwards");
    app.view_next(true);
    assert_eq!(app.viewing, ChannelId(0), "must wrap forwards");
}

#[test]
fn chat_is_filtered_by_channel_but_notices_are_not() {
    let mut app = welcomed();
    app.apply(said(0, 2, "general message", 1), 0);
    app.apply(said(1, 2, "gaming message", 2), 0);
    app.apply(Event::Notice("user2 joined the room".into()), 3);

    assert_eq!(texts(&app), vec!["general message", "user2 joined the room"]);
    app.view_next(true);
    assert_eq!(texts(&app), vec!["gaming message", "user2 joined the room"]);
}

#[test]
fn roster_drives_channel_membership_display() {
    let mut app = welcomed();
    assert_eq!(app.peers_in(ChannelId(1)).len(), 1);
    assert_eq!(app.peers_in(ChannelId(0)).len(), 0);

    app.apply(Event::Roster(vec![peer(1, Some(ChannelId(0))), peer(2, None)]), 0);
    assert_eq!(app.peers_in(ChannelId(0)).len(), 1);
    assert_eq!(app.peers_in(ChannelId(1)).len(), 0);
}

#[test]
fn input_is_trimmed_and_blank_input_sends_nothing() {
    let mut app = welcomed();
    app.input = "   ".into();
    assert_eq!(app.take_input(), None);
    assert!(app.input.is_empty(), "invalid input must be cleared too");

    app.input = "  selam  ".into();
    assert_eq!(app.take_input().as_deref(), Some("selam"));
}

#[test]
fn history_is_bounded() {
    let mut app = welcomed();
    for i in 0..VISIBLE_HISTORY + 100 {
        app.apply(Event::Notice(format!("notice {i}")), i as u64);
    }
    assert_eq!(app.lines.len(), VISIBLE_HISTORY);
    assert!(matches!(app.lines.last(), Some(Line::Notice { text, .. }) if text == &format!("notice {}", VISIBLE_HISTORY + 99)));
}

#[test]
fn the_recorded_test_keeps_the_speaker_shut_while_the_microphone_is_open() {
    let mut app = welcomed();
    assert!(app.toggle_recorded_test());
    assert_eq!(app.mic_test, MicTest::Recording, "recording comes first, on its own");

    assert!(app.finish_mic_test_stage());
    assert_eq!(app.mic_test, MicTest::Playing, "and only then does the speaker open");

    assert!(!app.finish_mic_test_stage());
    assert_eq!(app.mic_test, MicTest::Off);
}

#[test]
fn space_stops_a_test_that_is_already_running() {
    let mut app = welcomed();
    app.toggle_recorded_test();
    assert!(!app.toggle_recorded_test());
    assert_eq!(app.mic_test, MicTest::Off);
}

#[test]
fn monitoring_that_starts_howling_is_cut_off() {
    let mut app = welcomed();
    app.toggle_monitor();
    assert_eq!(app.mic_test, MicTest::Monitoring);

    app.cut_off_feedback();
    assert_eq!(app.mic_test, MicTest::Off);
    assert!(app.fed_back, "and the interface has to be able to say why");

    app.toggle_monitor();
    assert!(!app.fed_back, "starting again clears the old verdict");
    app.toggle_monitor();
    assert_eq!(app.mic_test, MicTest::Off);
}

#[test]
fn microphone_is_open_by_default() {
    let app = welcomed();
    assert!(app.mic_open(), "in normal mode the microphone is open");
}

#[test]
fn muting_closes_the_microphone_in_every_mode() {
    let mut app = welcomed();
    app.muted = true;
    assert!(!app.mic_open());

    app.ptt_mode = true;
    app.ptt_active = true;
    assert!(!app.mic_open(), "mute must override push-to-talk");
}

#[test]
fn push_to_talk_keeps_the_microphone_shut_until_pressed() {
    let mut app = welcomed();
    app.ptt_mode = true;
    assert!(!app.mic_open(), "nothing may be transmitted before the key is pressed");
    app.ptt_active = true;
    assert!(app.mic_open());
    app.ptt_active = false;
    assert!(!app.mic_open(), "must close when the key is released");
}

#[test]
fn deafened_state_comes_from_the_roster() {
    let mut app = welcomed();
    assert!(!app.deafened);

    let mut me = peer(1, None);
    me.deafened = true;
    app.apply(Event::Roster(vec![me]), 0);
    assert!(app.deafened, "the deafened flag comes from the coordinator");
}

#[test]
fn disconnect_ends_the_session() {
    let mut app = welcomed();
    assert!(app.ended.is_none());
    app.apply(Event::Disconnected("the room closed".into()), 0);
    assert_eq!(app.ended.as_deref(), Some("the room closed"));
}

#[test]
fn unknown_sender_falls_back_to_short_id() {
    let app = welcomed();
    assert_eq!(app.name_of(PeerId([2; 32])), "user2");
    assert_eq!(app.name_of(PeerId([9; 32])), PeerId([9; 32]).short());
}

fn last_notice(app: &App) -> String {
    match app.visible_lines().last().unwrap() {
        Line::Notice { text, .. } => text.clone(),
        other => panic!("expected a notice, got {other:?}"),
    }
}

#[test]
fn invite_code_can_be_brought_back_in_full() {
    let mut app = App::new(PeerId([1; 32]), "n73w-kuqc-uog2-abcd".into());
    app.channels = vec!["general".into()];

    app.show_invite_code(false, 0);
    let shown = last_notice(&app);
    assert!(shown.contains("n73w-kuqc-uog2-abcd"), "{shown}");
    assert!(!shown.contains("clipboard"), "{shown}");

    app.show_invite_code(true, 0);
    assert!(last_notice(&app).contains("clipboard"));
}

#[test]
fn names_survive_after_a_peer_leaves() {
    let mut app = welcomed();
    app.apply(said(0, 2, "I am off", 1), 0);
    assert_eq!(app.name_of(PeerId([2; 32])), "user2");

    app.apply(Event::Roster(vec![peer(1, None)]), 0);
    assert_eq!(app.name_of(PeerId([2; 32])), "user2", "a departed peer's old message must not turn into a raw id");
    assert_eq!(app.peers.len(), 1, "the people list must still be updated");
}

#[test]
fn moving_through_the_roster_never_lands_on_you() {
    let mut app = welcomed();
    app.peers.push(peer(3, None));

    app.select_peer(true);
    assert_eq!(app.selected_peer, Some(PeerId([2; 32])), "the first press picks the first other person");
    app.select_peer(true);
    assert_eq!(app.selected_peer, Some(PeerId([3; 32])));
    app.select_peer(true);
    assert_eq!(app.selected_peer, Some(PeerId([2; 32])), "it wraps past you rather than onto you");
}

#[test]
fn the_cursor_lets_go_of_someone_who_leaves() {
    let mut app = welcomed();
    app.select_peer(true);
    assert_eq!(app.selected_peer, Some(PeerId([2; 32])));

    app.apply(Event::Roster(vec![peer(1, None)]), 0);
    assert_eq!(app.selected_peer, None, "an arrow key must never quietly adjust somebody who has gone");
}

// ── Further cases ────────────────────────────────────────────────────────────────

#[test]
fn the_cursor_moves_backwards_from_the_far_edge() {
    let mut app = welcomed();
    app.peers.push(peer(3, None));
    app.select_peer(false);
    assert_eq!(app.selected_peer, Some(PeerId([3; 32])));
    app.select_peer(false);
    assert_eq!(app.selected_peer, Some(PeerId([2; 32])));
    app.peers.truncate(1);
    app.select_peer(true);
    assert_eq!(app.selected_peer, None, "alone, there is nobody to point at");
}

#[test]
fn a_fresh_device_list_keeps_the_device_in_use_highlighted() {
    let mut app = welcomed();
    app.active_input_name = Some("Mic 2".into());
    app.adopt_input_devices(vec![device("Mic 1", true), device("Mic 2", false)]);
    assert_eq!(app.selected_input_idx, 1);
    assert_eq!(app.selected_input_device().unwrap().name, "Mic 2");

    app.active_output_name = None;
    app.selected_output_idx = 7;
    app.adopt_output_devices(vec![device("Speakers", false), device("Headphones", true)]);
    assert_eq!(app.selected_output_idx, 1, "nothing in use: the system default");

    app.adopt_output_devices(vec![device("Speakers", false)]);
    assert_eq!(app.selected_output_idx, 0, "a cursor past the end returns to the top");
}

#[test]
fn channel_names_fall_back_to_a_question_mark() {
    let app = welcomed();
    assert_eq!(app.channel_name(ChannelId(1)), "gaming");
    assert_eq!(app.channel_name(ChannelId(9)), "?");
}

#[test]
fn only_others_can_be_adjusted() {
    let app = welcomed();
    assert_eq!(app.adjustable(), vec![PeerId([2; 32])]);
}
