use tincan::audio::device::AudioDeviceInfo;
use tincan::audio::MicTest;
use tincan::net::{Command, Event};
use tincan::proto::{ChannelId, PeerId, PeerInfo, RoomSnapshot};
use tincan::ui::keys::{Key, KeyAction, KeyCode};
use tincan::ui::state::App;
use tincan::ui::{SettingsSection, ViewMode};

fn key(code: KeyCode) -> Key {
    Key { code, ctrl: false }
}

fn ctrl(c: char) -> Key {
    Key { code: KeyCode::Char(c), ctrl: true }
}

fn welcomed() -> App {
    let me = PeerInfo { id: PeerId([1; 32]), name: "me".into(), channel: None, muted: false, deafened: false };
    let mut app = App::new(PeerId([1; 32]), "code".into());
    app.apply(
        Event::Welcome {
            me: PeerId([1; 32]),
            room: RoomSnapshot {
                room_name: "room".into(),
                channels: vec!["general".into(), "gaming".into()],
                peers: vec![me],
                recent_chat: vec![],
            },
        },
        0,
    );
    app
}

#[test]
fn control_c_quits_from_anywhere() {
    let mut app = welcomed();
    assert_eq!(app.handle_key(ctrl('c')), KeyAction::Quit);
    app.view_mode = ViewMode::Settings;
    assert_eq!(app.handle_key(ctrl('c')), KeyAction::Quit);
}

#[test]
fn typing_then_enter_sends_the_message_to_the_channel_on_screen() {
    let mut app = welcomed();
    for c in " hi there ".chars() {
        assert_eq!(app.handle_key(key(KeyCode::Char(c))), KeyAction::Typed(c));
    }
    app.handle_key(key(KeyCode::Backspace));
    app.handle_key(key(KeyCode::Tab));
    match app.handle_key(key(KeyCode::Enter)) {
        KeyAction::Send(commands) => {
            assert_eq!(commands, vec![Command::Chat { channel: ChannelId(1), text: "hi there".into() }])
        }
        other => panic!("expected a message, got {other:?}"),
    }
    assert!(app.input.is_empty());
    assert_eq!(app.handle_key(key(KeyCode::Enter)), KeyAction::Nothing, "an empty field sends nothing");
}

#[test]
fn control_letters_are_not_typed() {
    let mut app = welcomed();
    app.handle_key(ctrl('x'));
    assert!(app.input.is_empty());
}

#[test]
fn f2_joins_the_channel_on_screen_and_leaves_it_again() {
    let mut app = welcomed();
    assert_eq!(app.handle_key(key(KeyCode::F(2))), KeyAction::Send(vec![Command::SwitchChannel(Some(ChannelId(0)))]));
    app.voice = Some(ChannelId(0));
    assert_eq!(app.handle_key(ctrl('g')), KeyAction::Send(vec![Command::SwitchChannel(None)]));
}

#[test]
fn deafening_mutes_too_but_hearing_again_does_not_unmute() {
    let mut app = welcomed();
    assert_eq!(
        app.handle_key(key(KeyCode::F(5))),
        KeyAction::Send(vec![Command::SetDeafened(true), Command::SetMuted(true)])
    );
    app.deafened = true;
    app.muted = true;
    assert_eq!(app.handle_key(key(KeyCode::F(5))), KeyAction::Send(vec![Command::SetDeafened(false)]));
    assert_eq!(app.handle_key(key(KeyCode::F(3))), KeyAction::Send(vec![Command::SetMuted(false)]));
}

#[test]
fn push_to_talk_is_a_toggle_only_in_its_mode() {
    let mut app = welcomed();
    app.handle_key(key(KeyCode::F(4)));
    assert!(!app.ptt_active);
    app.ptt_mode = true;
    app.handle_key(key(KeyCode::F(4)));
    assert!(app.ptt_active);
}

#[test]
fn f1_brings_the_code_back() {
    let mut app = welcomed();
    assert_eq!(app.handle_key(key(KeyCode::F(1))), KeyAction::ShowCode);
}

#[test]
fn the_settings_screen_opens_and_closes() {
    let mut app = welcomed();
    assert_eq!(app.handle_key(key(KeyCode::F(6))), KeyAction::SettingsToggled { opened: true });
    assert_eq!(app.view_mode, ViewMode::Settings);
    app.handle_key(key(KeyCode::Char(' ')));
    assert_eq!(app.mic_test, MicTest::Recording);
    assert_eq!(app.handle_key(key(KeyCode::Esc)), KeyAction::SettingsToggled { opened: false });
    assert_eq!(app.view_mode, ViewMode::Chat);
    assert_eq!(app.mic_test, MicTest::Off, "leaving the screen stops the test");
    assert_eq!(app.handle_key(Key { code: KeyCode::Char(','), ctrl: true }), KeyAction::SettingsToggled { opened: true });
}

#[test]
fn the_gate_keys_only_work_on_the_microphone_section() {
    let mut app = welcomed();
    app.handle_key(key(KeyCode::F(6)));
    assert_eq!(app.handle_key(key(KeyCode::Left)), KeyAction::Nothing);
    app.settings_section = SettingsSection::MicTest;
    assert_eq!(app.handle_key(key(KeyCode::Left)), KeyAction::NudgeGate { up: false });
    assert_eq!(app.handle_key(key(KeyCode::Char('l'))), KeyAction::NudgeGate { up: true });
    assert_eq!(app.handle_key(key(KeyCode::Char('a'))), KeyAction::Calibrate);
    assert_eq!(app.handle_key(key(KeyCode::Char('m'))), KeyAction::MicTestChanged { recording_started: false });
    assert_eq!(app.mic_test, MicTest::Monitoring);
    assert_eq!(app.handle_key(key(KeyCode::Enter)), KeyAction::MicTestChanged { recording_started: false });
    assert_eq!(app.mic_test, MicTest::Off);
    assert_eq!(app.handle_key(key(KeyCode::Char('r'))), KeyAction::RefreshDevices);
}

#[test]
fn enter_on_a_device_opens_it_unless_it_reports_no_format() {
    let mut app = welcomed();
    app.handle_key(key(KeyCode::F(6)));
    app.input_devices = vec![
        AudioDeviceInfo { name: "Mic".into(), sample_rate: 48000, channels: 1, is_default: true, is_supported: true },
        AudioDeviceInfo { name: "Dead".into(), sample_rate: 0, channels: 0, is_default: false, is_supported: false },
    ];
    assert_eq!(app.handle_key(key(KeyCode::Enter)), KeyAction::SwitchInput("Mic".into()));
    app.handle_key(key(KeyCode::Down));
    assert_eq!(app.handle_key(key(KeyCode::Enter)), KeyAction::Nothing);
    assert_eq!(app.settings_error.as_deref(), Some("Dead is not reporting a format, so it cannot be opened"));
    app.handle_key(key(KeyCode::Tab));
    assert_eq!(app.settings_section, SettingsSection::OutputDevice);
    assert_eq!(app.settings_error, None);
}

fn with_two_others() -> App {
    let mut app = welcomed();
    let peer = |byte: u8, name: &str| PeerInfo { id: PeerId([byte; 32]), name: name.into(), channel: None, muted: false, deafened: false };
    app.apply(Event::Roster(vec![peer(1, "me"), peer(2, "ann"), peer(3, "bob")]), 0);
    app
}

#[test]
fn the_arrows_pick_someone_out_and_adjust_them() {
    let mut app = with_two_others();
    assert_eq!(app.handle_key(key(KeyCode::Right)), KeyAction::Nothing, "nobody picked yet");
    assert_eq!(app.handle_key(ctrl('k')), KeyAction::Nothing);
    assert_eq!(app.handle_key(key(KeyCode::Down)), KeyAction::Nothing);
    assert_eq!(app.selected_peer, Some(PeerId([2; 32])));
    assert_eq!(app.handle_key(key(KeyCode::Down)), KeyAction::Nothing);
    assert_eq!(app.selected_peer, Some(PeerId([3; 32])));
    assert_eq!(app.handle_key(key(KeyCode::Right)), KeyAction::NudgePeerVolume { up: true });
    assert_eq!(app.handle_key(key(KeyCode::Left)), KeyAction::NudgePeerVolume { up: false });
    assert_eq!(app.handle_key(ctrl('k')), KeyAction::SilencePeer);
    assert_eq!(app.handle_key(key(KeyCode::Esc)), KeyAction::Nothing);
    assert_eq!(app.selected_peer, None);
    assert!(app.input.is_empty(), "none of it was typed");
}

#[test]
fn the_typing_section_sets_the_clicks() {
    let mut app = welcomed();
    app.view_mode = ViewMode::Settings;
    app.settings_section = SettingsSection::Typing;
    let before = app.typing_clicks;
    assert_eq!(app.handle_key(key(KeyCode::Char(' '))), KeyAction::TypingClicksToggled);
    assert_eq!(app.typing_clicks, !before);
    assert_eq!(app.mic_test, MicTest::Off, "the space bar did not start a test here");
    assert_eq!(app.handle_key(key(KeyCode::Right)), KeyAction::NudgeTypingVolume { up: true });
    assert_eq!(app.handle_key(key(KeyCode::Left)), KeyAction::NudgeTypingVolume { up: false });
}

#[test]
fn shift_tab_undoes_tab_on_every_channel() {
    let mut app = welcomed();
    for _ in 0..2 {
        let start = app.viewing;
        app.handle_key(key(KeyCode::Tab));
        app.handle_key(key(KeyCode::BackTab));
        assert_eq!(app.viewing, start);
        app.handle_key(key(KeyCode::Tab));
    }
    app.view_mode = ViewMode::Settings;
    for _ in 0..4 {
        let start = app.settings_section;
        app.handle_key(key(KeyCode::BackTab));
        app.handle_key(key(KeyCode::Tab));
        assert_eq!(app.settings_section, start);
        app.handle_key(key(KeyCode::Tab));
    }
}

#[test]
fn up_undoes_down_on_the_roster() {
    let mut app = with_two_others();
    app.handle_key(key(KeyCode::Down));
    for _ in 0..3 {
        let start = app.selected_peer;
        app.handle_key(key(KeyCode::Down));
        app.handle_key(key(KeyCode::Up));
        assert_eq!(app.selected_peer, start);
        app.handle_key(key(KeyCode::Up));
    }
}
