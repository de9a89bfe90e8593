//! What a key press does. The keyboard itself, the coordinator, the audio engine and
//! the config file are outside the library: the state changes here, and what has to
//! happen out there comes back as a `KeyAction`.
use vstd::prelude::*;
use vstd::string::StringExecFns;

use crate::audio::MicTest;
use crate::net::Command;
use crate::proto::ChannelId;
use crate::text::{push_char, trim};
use crate::ui::state::{navigate_ok, navigated, next_section, next_selection, others_of, step_index, view_next_ok, App};
use crate::ui::{SettingsSection, ViewMode};

verus! {

/// A key as the interface reads it.
#[derive(Debug, Clone, Copy, PartialEq, Eq, Structural)]
pub enum KeyCode {
    Char(char),
    F(u8),
    Esc,
    Left,
    Right,
    Up,
    Down,
    Tab,
    BackTab,
    Enter,
    Backspace,
    Other,
}

/// A key with whether control was held.
#[derive(Debug, Clone, Copy, PartialEq, Eq, Structural)]
pub struct Key {
    pub code: KeyCode,
    pub ctrl: bool,
}

/// What the program around the interface state has to do after a key.
#[derive(Debug, Clone, PartialEq, Eq)]
pub enum KeyAction {
    Nothing,
    /// Tell the coordinator we are leaving, and close the interface.
    Quit,
    /// The settings screen opened (refresh the device lists) or closed (remember the
    /// gate); either way play the chime and tell the engine the test's state.
    SettingsToggled { opened: bool },
    /// Move the noise gate one cell of the meter, up or down.
    NudgeGate { up: bool },
    /// Start measuring the room.
    Calibrate,
    /// The microphone test changed: tell the engine, and start the clock when a
    /// recording began (stop it otherwise).
    MicTestChanged { recording_started: bool },
    /// List the audio devices again.
    RefreshDevices,
    /// Open this microphone.
    SwitchInput(String),
    /// Open this speaker.
    SwitchOutput(String),
    /// Copy the invite code and put it back on screen.
    ShowCode,
    /// Commands for the coordinator, in order.
    Send(Vec<Command>),
    /// A character went into the message being written: click, if clicks are on.
    Typed(char),
    /// Turn the highlighted person up or down a step.
    NudgePeerVolume { up: bool },
    /// Silence the highlighted person, or give them their voice back.
    SilencePeer,
    /// Make the key clicks louder or quieter a step.
    NudgeTypingVolume { up: bool },
    /// Key clicks were turned on or off: keep the choice for next time.
    TypingClicksToggled,
}

/// Control+C.
pub open spec fn is_quit(key: Key) -> bool {
    key.ctrl && key.code == KeyCode::Char('c')
}

/// F6, or control+comma.
pub open spec fn is_settings_toggle(key: Key) -> bool {
    key.code == KeyCode::F(6) || (key.ctrl && key.code == KeyCode::Char(','))
}

pub open spec fn is_up(key: Key) -> bool {
    key.code == KeyCode::Up || key.code == KeyCode::Char('k')
}

pub open spec fn is_down(key: Key) -> bool {
    key.code == KeyCode::Down || key.code == KeyCode::Char('j')
}

/// Whether a key reaches a step that has arithmetic limits: `Tab` on the chat screen
/// moves the channel, and up or down on the settings screen moves a device highlight.
pub open spec fn key_ok(app: App, key: Key) -> bool {
    &&& !is_quit(key) && !is_settings_toggle(key) && app.view_mode == ViewMode::Chat ==> (
    key.code == KeyCode::Tab ==> view_next_ok(app, true)) && (key.code == KeyCode::BackTab ==> view_next_ok(app, false))
    &&& !is_quit(key) && !is_settings_toggle(key) && app.view_mode == ViewMode::Settings && key.code != KeyCode::Esc ==> (
    is_up(key) ==> navigate_ok(app, false)) && (is_down(key) ==> navigate_ok(app, true))
}

/// The message shown for a device that will not say what format it runs at.
pub open spec fn unsupported_message(name: Seq<char>) -> Seq<char> {
    name + " is not reporting a format, so it cannot be opened"@
}

/// `String::pop`: the last character goes.
#[verifier::external_body]
fn pop_char(s: &mut String)
    ensures
        final(s)@ == (if old(s)@.len() > 0 { old(s)@.drop_last() } else { old(s)@ }),
{
    s.pop();
}

fn same_code(a: KeyCode, b: KeyCode) -> (r: bool)
    ensures
        r == (a == b),
{
    match (a, b) {
        (KeyCode::Char(x), KeyCode::Char(y)) => x == y,
        (KeyCode::F(x), KeyCode::F(y)) => x == y,
        (KeyCode::Esc, KeyCode::Esc) => true,
        (KeyCode::Left, KeyCode::Left) => true,
        (KeyCode::Right, KeyCode::Right) => true,
        (KeyCode::Up, KeyCode::Up) => true,
        (KeyCode::Down, KeyCode::Down) => true,
        (KeyCode::Tab, KeyCode::Tab) => true,
        (KeyCode::BackTab, KeyCode::BackTab) => true,
        (KeyCode::Enter, KeyCode::Enter) => true,
        (KeyCode::Backspace, KeyCode::Backspace) => true,
        (KeyCode::Other, KeyCode::Other) => true,
        _ => false,
    }
}

/// What a key on the settings screen does: `r` is what comes back, `o` the state
/// before and `f` the state after.
pub open spec fn settings_key_spec(o: App, key: Key, f: App, r: KeyAction) -> bool {
    &&& f.view_mode == o.view_mode
    &&& f.input == o.input
    &&& {
                let mic = o.settings_section == SettingsSection::MicTest;
                if (key.code == KeyCode::Left || key.code == KeyCode::Char('h')) && mic {
                    r == (KeyAction::NudgeGate { up: false }) && f == o
                } else if (key.code == KeyCode::Right || key.code == KeyCode::Char('l')) && mic {
                    r == (KeyAction::NudgeGate { up: true }) && f == o
                } else if (key.code == KeyCode::Char('a') || key.code == KeyCode::Char('A')) && mic {
                    r == KeyAction::Calibrate && f == o
                } else if key.code == KeyCode::Tab || key.code == KeyCode::BackTab {
                    &&& r == KeyAction::Nothing
                    &&& f == (App {
                        settings_section: next_section(o.settings_section, key.code == KeyCode::Tab),
                        settings_error: None,
                        ..o
                    })
                } else if (key.code == KeyCode::Left || key.code == KeyCode::Right)
                    && o.settings_section == SettingsSection::Typing {
                    r == (KeyAction::NudgeTypingVolume { up: key.code == KeyCode::Right }) && f == o
                } else if key.code == KeyCode::Char(' ') && o.settings_section == SettingsSection::Typing {
                    r == KeyAction::TypingClicksToggled && f == (App { typing_clicks: !o.typing_clicks, ..o })
                } else if is_up(key) || is_down(key) {
                    r == KeyAction::Nothing && f == navigated(o, is_down(key))
                } else if key.code == KeyCode::Char(' ') || (key.code == KeyCode::Enter && mic) {
                    &&& r == (KeyAction::MicTestChanged { recording_started: o.mic_test == MicTest::Off })
                    &&& f == (if o.mic_test == MicTest::Off {
                        App { mic_test: MicTest::Recording, fed_back: false, ..o }
                    } else {
                        App { mic_test: MicTest::Off, ..o }
                    })
                } else if key.code == KeyCode::Char('m') || key.code == KeyCode::Char('M') {
                    &&& r == (KeyAction::MicTestChanged { recording_started: false })
                    &&& f == (if o.mic_test == MicTest::Monitoring {
                        App { mic_test: MicTest::Off, ..o }
                    } else {
                        App { mic_test: MicTest::Monitoring, fed_back: false, ..o }
                    })
                } else if key.code == KeyCode::Char('r') || key.code == KeyCode::Char('R') {
                    r == KeyAction::RefreshDevices && f == o
                } else if key.code == KeyCode::Enter && o.settings_section == SettingsSection::InputDevice {
                    if o.selected_input_idx < o.input_devices@.len() {
                        let d = o.input_devices@[o.selected_input_idx as int];
                        if d.is_supported {
                            (r matches KeyAction::SwitchInput(name) && name@ == d.name@) && f == o
                        } else {
                            &&& r == KeyAction::Nothing
                            &&& f.settings_error matches Some(m) && m@ == unsupported_message(d.name@)
                        }
                    } else {
                        r == KeyAction::Nothing && f == o
                    }
                } else if key.code == KeyCode::Enter && o.settings_section == SettingsSection::OutputDevice {
                    if o.selected_output_idx < o.output_devices@.len() {
                        let d = o.output_devices@[o.selected_output_idx as int];
                        if d.is_supported {
                            (r matches KeyAction::SwitchOutput(name) && name@ == d.name@) && f == o
                        } else {
                            &&& r == KeyAction::Nothing
                            &&& f.settings_error matches Some(m) && m@ == unsupported_message(d.name@)
                        }
                    } else {
                        r == KeyAction::Nothing && f == o
                    }
                } else {
                    r == KeyAction::Nothing && f == o
                }
    }
}

/// What a key on the chat screen does.
pub open spec fn chat_key_spec(o: App, key: Key, f: App, r: KeyAction) -> bool {
    &&& f.view_mode == o.view_mode
    &&& {
                if key.code == KeyCode::F(1) {
                    r == KeyAction::ShowCode && f == o
                } else if key.code == KeyCode::F(4) && o.ptt_mode {
                    r == KeyAction::Nothing && f == (App { ptt_active: !o.ptt_active, ..o })
                } else if key.code == KeyCode::F(5) {
                    &&& f == o
                    &&& r matches KeyAction::Send(commands) && commands@ == (if !o.deafened && !o.muted {
                        seq![Command::SetDeafened(!o.deafened), Command::SetMuted(true)]
                    } else {
                        seq![Command::SetDeafened(!o.deafened)]
                    })
                } else if key.code == KeyCode::F(2) || (key.ctrl && key.code == KeyCode::Char('g')) {
                    &&& f == o
                    &&& r matches KeyAction::Send(commands) && commands@ == seq![
                        Command::SwitchChannel(if o.voice == Some(o.viewing) { None } else { Some(o.viewing) }),
                    ]
                } else if key.code == KeyCode::F(3) || (key.ctrl && key.code == KeyCode::Char('t')) {
                    &&& f == o
                    &&& r matches KeyAction::Send(commands) && commands@ == seq![Command::SetMuted(!o.muted)]
                } else if key.code == KeyCode::Up || key.code == KeyCode::Down {
                    &&& r == KeyAction::Nothing
                    &&& f == (App {
                        selected_peer: next_selection(others_of(o.peers@, o.me), o.selected_peer, key.code == KeyCode::Down),
                        ..o
                    })
                } else if (key.code == KeyCode::Left || key.code == KeyCode::Right) && o.selected_peer is Some {
                    r == (KeyAction::NudgePeerVolume { up: key.code == KeyCode::Right }) && f == o
                } else if key.ctrl && key.code == KeyCode::Char('k') && o.selected_peer is Some {
                    r == KeyAction::SilencePeer && f == o
                } else if key.code == KeyCode::Esc {
                    r == KeyAction::Nothing && f == (App { selected_peer: None, ..o })
                } else if key.code == KeyCode::Tab || key.code == KeyCode::BackTab {
                    &&& r == KeyAction::Nothing
                    &&& o.channels@.len() > 0 ==> f.viewing == ChannelId(
                        step_index(o.viewing.0 as int, (o.channels@.len() % 256) as int, key.code == KeyCode::Tab) as u8,
                    )
                    &&& o.channels@.len() == 0 ==> f == o
                    &&& f == (App { viewing: f.viewing, unread: f.unread, ..o })
                } else if key.code == KeyCode::Enter {
                    &&& f.input@.len() == 0
                    &&& f == (App { input: f.input, ..o })
                    &&& trim(o.input@).len() > 0 ==> (r matches KeyAction::Send(commands) && commands@.len() == 1
                        && (commands@[0] matches Command::Chat { channel, text } && channel == o.viewing && text@ == trim(o.input@)))
                    &&& trim(o.input@).len() == 0 ==> r == KeyAction::Nothing
                } else if key.code == KeyCode::Backspace {
                    &&& r == KeyAction::Nothing
                    &&& f.input@ == (if o.input@.len() > 0 { o.input@.drop_last() } else { o.input@ })
                    &&& f == (App { input: f.input, ..o })
                } else if key.code is Char && !key.ctrl {
                    &&& r == KeyAction::Typed(key.code->Char_0)
                    &&& f.input@ == o.input@.push(key.code->Char_0)
                    &&& f == (App { input: f.input, ..o })
                } else {
                    r == KeyAction::Nothing && f == o
                }
    }
}

impl App {
    /// The settings screen's keys.
    #[verifier::rlimit(100)]
    #[verifier::spinoff_prover]
    fn settings_key(&mut self, key: Key) -> (r: KeyAction)
        requires
            old(self).view_mode == ViewMode::Settings,
            key.code != KeyCode::Esc,
            is_up(key) ==> navigate_ok(*old(self), false),
            is_down(key) ==> navigate_ok(*old(self), true),
        ensures
            settings_key_spec(*old(self), key, *final(self), r),
    {
        let code = key.code;
        let mic = match self.settings_section {
            SettingsSection::MicTest => true,
            _ => false,
        };
        if (same_code(code, KeyCode::Left) || same_code(code, KeyCode::Char('h'))) && mic {
            return KeyAction::NudgeGate { up: false };
        }
        if (same_code(code, KeyCode::Right) || same_code(code, KeyCode::Char('l'))) && mic {
            return KeyAction::NudgeGate { up: true };
        }
        if (same_code(code, KeyCode::Char('a')) || same_code(code, KeyCode::Char('A'))) && mic {
            return KeyAction::Calibrate;
        }
        let typing = match self.settings_section {
            SettingsSection::Typing => true,
            _ => false,
        };
        if (same_code(code, KeyCode::Left) || same_code(code, KeyCode::Right)) && typing {
            return KeyAction::NudgeTypingVolume { up: same_code(code, KeyCode::Right) };
        }
        if same_code(code, KeyCode::Char(' ')) && typing {
            self.toggle_typing_clicks();
            return KeyAction::TypingClicksToggled;
        }
        if same_code(code, KeyCode::Tab) {
            self.settings_next_section(true);
            return KeyAction::Nothing;
        }
        if same_code(code, KeyCode::BackTab) {
            self.settings_next_section(false);
            return KeyAction::Nothing;
        }
        if same_code(code, KeyCode::Up) || same_code(code, KeyCode::Char('k')) {
            self.settings_navigate_item(false);
            return KeyAction::Nothing;
        }
        if same_code(code, KeyCode::Down) || same_code(code, KeyCode::Char('j')) {
            self.settings_navigate_item(true);
            return KeyAction::Nothing;
        }
        if same_code(code, KeyCode::Char(' ')) || (same_code(code, KeyCode::Enter) && mic) {
            let started = self.toggle_recorded_test();
            return KeyAction::MicTestChanged { recording_started: started };
        }
        if same_code(code, KeyCode::Char('m')) || same_code(code, KeyCode::Char('M')) {
            self.toggle_monitor();
            return KeyAction::MicTestChanged { recording_started: false };
        }
        if same_code(code, KeyCode::Char('r')) || same_code(code, KeyCode::Char('R')) {
            return KeyAction::RefreshDevices;
        }
        if same_code(code, KeyCode::Enter) {
            match self.settings_section {
                SettingsSection::InputDevice => {
                    if self.selected_input_idx < self.input_devices.len() {
                        let i = self.selected_input_idx;
                        let name = self.input_devices[i].name.clone();
                        if self.input_devices[i].is_supported {
                            return KeyAction::SwitchInput(name);
                        }
                        let mut message = name;
                        message.append(" is not reporting a format, so it cannot be opened");
                        self.settings_error = Some(message);
                    }
                },
                SettingsSection::OutputDevice => {
                    if self.selected_output_idx < self.output_devices.len() {
                        let i = self.selected_output_idx;
                        let name = self.output_devices[i].name.clone();
                        if self.output_devices[i].is_supported {
                            return KeyAction::SwitchOutput(name);
                        }
                        let mut message = name;
                        message.append(" is not reporting a format, so it cannot be opened");
                        self.settings_error = Some(message);
                    }
                },
                _ => {},
            }
        }
        KeyAction::Nothing
    }

    /// The chat screen's keys.
    #[verifier::rlimit(100)]
    #[verifier::spinoff_prover]
    fn chat_key(&mut self, key: Key) -> (r: KeyAction)
        requires
            key.code == KeyCode::Tab ==> view_next_ok(*old(self), true),
            key.code == KeyCode::BackTab ==> view_next_ok(*old(self), false),
        ensures
            chat_key_spec(*old(self), key, *final(self), r),
    {
        let code = key.code;
        if same_code(code, KeyCode::F(1)) {
            return KeyAction::ShowCode;
        }
        if same_code(code, KeyCode::F(4)) && self.ptt_mode {
            self.ptt_active = !self.ptt_active;
            return KeyAction::Nothing;
        }
        if same_code(code, KeyCode::F(5)) {
            let deafened = !self.deafened;
            let mut commands: Vec<Command> = Vec::new();
            commands.push(Command::SetDeafened(deafened));
            if deafened && !self.muted {
                commands.push(Command::SetMuted(true));
                assert(commands@ =~= seq![Command::SetDeafened(deafened), Command::SetMuted(true)]);
            } else {
                assert(commands@ =~= seq![Command::SetDeafened(deafened)]);
            }
            return KeyAction::Send(commands);
        }
        if same_code(code, KeyCode::F(2)) || (key.ctrl && same_code(code, KeyCode::Char('g'))) {
            let here = self.viewing;
            let already = match self.voice {
                Some(c) => c.0 == here.0,
                None => false,
            };
            let target = if already {
                None
            } else {
                Some(here)
            };
            let mut commands: Vec<Command> = Vec::new();
            commands.push(Command::SwitchChannel(target));
            assert(commands@ =~= seq![Command::SwitchChannel(target)]);
            return KeyAction::Send(commands);
        }
        if same_code(code, KeyCode::F(3)) || (key.ctrl && same_code(code, KeyCode::Char('t'))) {
            let mut commands: Vec<Command> = Vec::new();
            commands.push(Command::SetMuted(!self.muted));
            assert(commands@ =~= seq![Command::SetMuted(!self.muted)]);
            return KeyAction::Send(commands);
        }
        let selected = self.selected_peer.is_some();
        if same_code(code, KeyCode::Up) || same_code(code, KeyCode::Down) {
            self.select_peer(same_code(code, KeyCode::Down));
            return KeyAction::Nothing;
        }
        if (same_code(code, KeyCode::Left) || same_code(code, KeyCode::Right)) && selected {
            return KeyAction::NudgePeerVolume { up: same_code(code, KeyCode::Right) };
        }
        if key.ctrl && same_code(code, KeyCode::Char('k')) && selected {
            return KeyAction::SilencePeer;
        }
        if same_code(code, KeyCode::Esc) {
            self.selected_peer = None;
            return KeyAction::Nothing;
        }
        match code {
            KeyCode::Tab => {
                self.view_next(true);
                KeyAction::Nothing
            },
            KeyCode::BackTab => {
                self.view_next(false);
                KeyAction::Nothing
            },
            KeyCode::Enter => {
                let channel = self.viewing;
                match self.take_input() {
                    Some(text) => {
                        let mut commands: Vec<Command> = Vec::new();
                        commands.push(Command::Chat { channel, text });
                        KeyAction::Send(commands)
                    },
                    None => KeyAction::Nothing,
                }
            },
            KeyCode::Backspace => {
                pop_char(&mut self.input);
                KeyAction::Nothing
            },
            KeyCode::Char(c) => {
                if !key.ctrl {
                    push_char(&mut self.input, c);
                    KeyAction::Typed(c)
                } else {
                    KeyAction::Nothing
                }
            },
            _ => KeyAction::Nothing,
        }
    }

    /// Handles a key: the interface state changes here, and what has to happen outside
    /// comes back.
    pub fn handle_key(&mut self, key: Key) -> (r: KeyAction)
        requires
            key_ok(*old(self), key),
        ensures
            is_quit(key) ==> r == KeyAction::Quit && *final(self) == *old(self),
            !is_quit(key) && (is_settings_toggle(key) || (old(self).view_mode == ViewMode::Settings && key.code
                == KeyCode::Esc)) ==> {
                let opened = old(self).view_mode == ViewMode::Chat;
                &&& r == (KeyAction::SettingsToggled { opened })
                &&& final(self).view_mode == (if opened { ViewMode::Settings } else { ViewMode::Chat })
                &&& !opened ==> final(self).mic_test == MicTest::Off
                &&& final(self).settings_error is None
                &&& *final(self) == (App {
                    view_mode: final(self).view_mode,
                    mic_test: final(self).mic_test,
                    settings_error: None,
                    ..*old(self)
                })
            },
            !is_quit(key) && !is_settings_toggle(key) && old(self).view_mode == ViewMode::Chat ==> chat_key_spec(
                *old(self),
                key,
                *final(self),
                r,
            ),
            !is_quit(key) && !is_settings_toggle(key) && old(self).view_mode == ViewMode::Settings && key.code != KeyCode::Esc
                ==> settings_key_spec(*old(self), key, *final(self), r),
    {
        if key.ctrl && same_code(key.code, KeyCode::Char('c')) {
            return KeyAction::Quit;
        }
        let toggle = same_code(key.code, KeyCode::F(6)) || (key.ctrl && same_code(key.code, KeyCode::Char(',')));
        let in_settings = match self.view_mode {
            ViewMode::Settings => true,
            ViewMode::Chat => false,
        };
        if toggle || (in_settings && same_code(key.code, KeyCode::Esc)) {
            let opened = self.toggle_settings();
            return KeyAction::SettingsToggled { opened };
        }
        if in_settings {
            self.settings_key(key)
        } else {
            self.chat_key(key)
        }
    }
}

/// F2 on the chat screen joins the voice of the channel on screen, and leaves voice
/// only when that is already the channel you are talking in: from any other channel,
/// or from none, it moves you to the one you are looking at. Nothing changes on
/// screen until the coordinator answers.
pub proof fn lemma_f2_talks_where_you_look(o: App, ctrl: bool, f: App, r: KeyAction)
    requires
        chat_key_spec(o, Key { code: KeyCode::F(2), ctrl }, f, r),
    ensures
        f == o,
        o.voice == Some(o.viewing) ==> (r matches KeyAction::Send(commands) && commands@ == seq![
            Command::SwitchChannel(None),
        ]),
        o.voice != Some(o.viewing) ==> (r matches KeyAction::Send(commands) && commands@ == seq![
            Command::SwitchChannel(Some(o.viewing)),
        ]),
{
}

} // verus!
