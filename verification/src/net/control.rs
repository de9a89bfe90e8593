//! The control plane's decisions.
//!
//! The host's own actions go through the same function as actions arriving from the
//! network (`apply`): with a shortcut just for the host, the room the host sees and the
//! room everyone else sees would drift apart.
use vstd::prelude::*;
use vstd::string::StringExecFns;

use super::{Command, Event};
use crate::auth::{accepts, verify, Nonce};
use crate::proto::{ChatLineV, PeerId, PeerInfoV, RoomSnapshot, RoomSnapshotV, ToCoordinator, ToPeer, ToPeerV, VOICE_ALPN};
use vstd::utf8::encode_utf8;
use crate::room::{bounded_history, channel_fits, display_name, Room, RoomError};
use crate::text::trim;
use crate::proto::MAX_CHAT_CHARS;

verus! {

/// What a command becomes on the wire.
pub open spec fn wire_of(command: Command) -> ToCoordinator {
    match command {
        Command::SwitchChannel(channel) => ToCoordinator::SwitchChannel { channel },
        Command::Chat { channel, text } => ToCoordinator::Chat { channel, text },
        Command::SetMuted(muted) => ToCoordinator::SetMuted { muted },
        Command::SetDeafened(deafened) => ToCoordinator::SetDeafened { deafened },
        Command::Quit => ToCoordinator::Leave,
    }
}

pub fn into_wire(command: Command) -> (r: ToCoordinator)
    ensures
        r == wire_of(command),
{
    match command {
        Command::SwitchChannel(channel) => ToCoordinator::SwitchChannel { channel },
        Command::Chat { channel, text } => ToCoordinator::Chat { channel, text },
        Command::SetMuted(muted) => ToCoordinator::SetMuted { muted },
        Command::SetDeafened(deafened) => ToCoordinator::SetDeafened { deafened },
        Command::Quit => ToCoordinator::Leave,
    }
}

/// What a message from the coordinator tells the interface, if anything.
pub open spec fn event_of(message: ToPeer) -> Option<Event> {
    match message {
        ToPeer::Roster { peers } => Some(Event::Roster(peers)),
        ToPeer::Chat(line) => Some(Event::Chat(line)),
        ToPeer::Notice { text } => Some(Event::Notice(text)),
        ToPeer::Rejected { reason } => Some(Event::Disconnected(reason)),
        ToPeer::Welcome { .. } | ToPeer::Challenge { .. } => None,
    }
}

/// Welcome and Challenge only mean something during the handshake.
pub fn wire_to_event(message: ToPeer) -> (r: Option<Event>)
    ensures
        r == event_of(message),
{
    match message {
        ToPeer::Roster { peers } => Some(Event::Roster(peers)),
        ToPeer::Chat(line) => Some(Event::Chat(line)),
        ToPeer::Notice { text } => Some(Event::Notice(text)),
        ToPeer::Rejected { reason } => Some(Event::Disconnected(reason)),
        ToPeer::Welcome { .. } | ToPeer::Challenge { .. } => None,
    }
}

/// Why the coordinator refused a message.
#[derive(Debug, Clone, Copy, PartialEq, Eq)]
pub enum ControlError {
    /// A second `Hello` once the handshake is over.
    AlreadyGreeted,
    /// The room turned it down.
    Room(RoomError),
}

/// What `apply` does: `r` is its answer, `before` and `after` the room around it.
pub open spec fn apply_spec(before: Room, after: Room, from: PeerId, message: ToCoordinator, at: u64, r: Result<Vec<ToPeer>, ControlError>) -> bool {
    &&& after.wf()
    &&& r is Err ==> after == before
    &&& match message {
            ToCoordinator::Hello { .. } => r == Err::<Vec<ToPeer>, ControlError>(ControlError::AlreadyGreeted),
            ToCoordinator::SwitchChannel { channel } => {
                &&& r is Ok <==> channel_fits(channel, before.channels_v().len()) && before.members().contains_key(from)
                &&& r matches Ok(out) ==> {
                    &&& after.members() == before.members().insert(from, PeerInfoV { channel, ..before.members()[from] })
                    &&& after.chat_v() == before.chat_v()
                    &&& out.deep_view() == seq![ToPeerV::Roster { peers: after.roster_v() }]
                }
            },
            ToCoordinator::Chat { channel, text } => {
                &&& r is Ok <==> before.members().contains_key(from) && channel.0 < before.channels_v().len()
                    && 0 < trim(text@).len() <= MAX_CHAT_CHARS
                &&& r matches Ok(out) ==> {
                    let line = ChatLineV { channel, from, text: trim(text@), at };
                    &&& after.roster_v() == before.roster_v()
                    &&& after.chat_v() == bounded_history(before.chat_v().push(line))
                    &&& out.deep_view() == seq![ToPeerV::Chat(line)]
                }
            },
            ToCoordinator::SetMuted { muted } => {
                &&& r is Ok <==> before.members().contains_key(from)
                &&& r matches Ok(out) ==> {
                    &&& after.members() == before.members().insert(from, PeerInfoV { muted, ..before.members()[from] })
                    &&& after.chat_v() == before.chat_v()
                    &&& out.deep_view() == seq![ToPeerV::Roster { peers: after.roster_v() }]
                }
            },
            ToCoordinator::SetDeafened { deafened } => {
                &&& r is Ok <==> before.members().contains_key(from)
                &&& r matches Ok(out) ==> {
                    &&& after.members() == before.members().insert(from, PeerInfoV { deafened, ..before.members()[from] })
                    &&& after.chat_v() == before.chat_v()
                    &&& out.deep_view() == seq![ToPeerV::Roster { peers: after.roster_v() }]
                }
            },
            ToCoordinator::Leave => {
                &&& r is Ok
                &&& after.members() == before.members().remove(from)
                &&& after.chat_v() == before.chat_v()
                &&& r matches Ok(out) ==> if before.members().contains_key(from) {
                    out.deep_view() == seq![
                        ToPeerV::Notice { text: before.members()[from].name + " left the room"@ },
                        ToPeerV::Roster { peers: after.roster_v() },
                    ]
                } else {
                    out.deep_view().len() == 0
                }
            },
        }
}

/// The single point of truth: every action is applied to the room here, and what comes
/// back is what has to be broadcast.
pub fn apply(room: &mut Room, from: PeerId, message: ToCoordinator, at: u64) -> (r: Result<Vec<ToPeer>, ControlError>)
    requires
        old(room).wf(),
    ensures
        final(room).wf(),
        apply_spec(*old(room), *final(room), from, message, at, r),

{
    match message {
        ToCoordinator::Hello { .. } => Err(ControlError::AlreadyGreeted),
        ToCoordinator::SwitchChannel { channel } => match room.switch_channel(&from, channel) {
            Ok(()) => {
                let mut out: Vec<ToPeer> = Vec::new();
                out.push(ToPeer::Roster { peers: room.roster() });
                assert(out.deep_view() =~= seq![ToPeerV::Roster { peers: room.roster_v() }]);
                Ok(out)
            },
            Err(e) => Err(ControlError::Room(e)),
        },
        ToCoordinator::Chat { channel, text } => match room.post_chat(&from, channel, text.as_str(), at) {
            Ok(line) => {
                let mut out: Vec<ToPeer> = Vec::new();
                let ghost lv = line.deep_view();
                out.push(ToPeer::Chat(line));
                assert(out.deep_view() =~= seq![ToPeerV::Chat(lv)]);
                Ok(out)
            },
            Err(e) => Err(ControlError::Room(e)),
        },
        ToCoordinator::SetMuted { muted } => match room.set_muted(&from, muted) {
            Ok(()) => {
                let mut out: Vec<ToPeer> = Vec::new();
                out.push(ToPeer::Roster { peers: room.roster() });
                assert(out.deep_view() =~= seq![ToPeerV::Roster { peers: room.roster_v() }]);
                Ok(out)
            },
            Err(e) => Err(ControlError::Room(e)),
        },
        ToCoordinator::SetDeafened { deafened } => match room.set_deafened(&from, deafened) {
            Ok(()) => {
                let mut out: Vec<ToPeer> = Vec::new();
                out.push(ToPeer::Roster { peers: room.roster() });
                assert(out.deep_view() =~= seq![ToPeerV::Roster { peers: room.roster_v() }]);
                Ok(out)
            },
            Err(e) => Err(ControlError::Room(e)),
        },
        ToCoordinator::Leave => {
            let mut out: Vec<ToPeer> = Vec::new();
            let ghost members = room.members();
            if let Some(peer) = room.leave(&from) {
                let mut text = peer.name;
                text.append(" left the room");
                let ghost said = text@;
                out.push(ToPeer::Notice { text });
                let peers = room.roster();
                let ghost listed = peers.deep_view();
                out.push(ToPeer::Roster { peers });
                assert(out.deep_view() =~= seq![ToPeerV::Notice { text: said }, ToPeerV::Roster { peers: listed }]);
            }
            Ok(out)
        },
    }
}

/// What the coordinator answers an applicant, and what it then tells the whole room.
pub struct Admission {
    /// `Welcome` with the room as it now stands, or `Rejected` with the reason.
    pub reply: ToPeer,
    /// Broadcast once the applicant is in: who joined, then the new roster.
    pub broadcast: Vec<ToPeer>,
}

/// The reason given for a proof that does not match the room password.
pub open spec fn wrong_password_reason() -> Seq<char> {
    "wrong room password"@
}

/// The handshake's decision. The first message from an applicant must be `Hello`
/// (anything else ends the connection: `None`); then the password proof is checked
/// against the nonce that was sent, and only then does the applicant join the room.
pub fn answer_hello(room: &mut Room, password: &str, nonce: &Nonce, peer: PeerId, hello: ToCoordinator) -> (r: Option<Admission>)
    requires
        old(room).wf(),
    ensures
        final(room).wf(),
        match hello {
            ToCoordinator::Hello { name, proof: presented } => {
                &&& r is Some
                &&& r matches Some(a) ==> if !accepts(password@, nonce@, presented@) {
                    &&& a.reply.deep_view() == ToPeerV::Rejected { reason: wrong_password_reason() }
                    &&& a.broadcast@.len() == 0
                    &&& *final(room) == *old(room)
                } else {
                    match display_name(old(room).members(), peer, name@) {
                        None => {
                            &&& a.reply.deep_view() == ToPeerV::Rejected { reason: RoomError::EmptyName.message_spec() }
                            &&& a.broadcast@.len() == 0
                            &&& *final(room) == *old(room)
                        },
                        Some(shown) => {
                            &&& final(room).members() == old(room).members().insert(
                                peer,
                                PeerInfoV { id: peer, name: shown, channel: None, muted: false, deafened: false },
                            )
                            &&& final(room).chat_v() == old(room).chat_v()
                            &&& final(room).channels_v() == old(room).channels_v()
                            &&& final(room).name_v() == old(room).name_v()
                            &&& a.reply.deep_view() == ToPeerV::Welcome {
                                you: peer,
                                room: RoomSnapshotV {
                                    room_name: final(room).name_v(),
                                    channels: final(room).channels_v(),
                                    peers: final(room).roster_v(),
                                    recent_chat: final(room).chat_v(),
                                },
                            }
                            &&& a.broadcast.deep_view() == seq![
                                ToPeerV::Notice { text: shown + " joined the room"@ },
                                ToPeerV::Roster { peers: final(room).roster_v() },
                            ]
                        },
                    }
                }
            },
            _ => r is None && *final(room) == *old(room),
        },
{
    let (name, presented) = match hello {
        ToCoordinator::Hello { name, proof: presented } => (name, presented),
        _ => return None,
    };
    if !verify(password, nonce, &presented) {
        let reply = ToPeer::Rejected { reason: String::from_str("wrong room password") };
        return Some(Admission { reply, broadcast: Vec::new() });
    }
    match room.join(peer, name.as_str()) {
        Ok(shown) => {
            let reply = ToPeer::Welcome { you: peer, room: room.snapshot() };
            let mut text = shown;
            text.append(" joined the room");
            let mut broadcast: Vec<ToPeer> = Vec::new();
            broadcast.push(ToPeer::Notice { text });
            broadcast.push(ToPeer::Roster { peers: room.roster() });
            Some(Admission { reply, broadcast })
        },
        Err(e) => {
            let reply = ToPeer::Rejected { reason: e.message() };
            Some(Admission { reply, broadcast: Vec::new() })
        },
    }
}

impl ControlError {
    /// The refusal in words.
    pub open spec fn message_spec(self) -> Seq<char> {
        match self {
            ControlError::AlreadyGreeted => "the handshake is already complete"@,
            ControlError::Room(e) => e.message_spec(),
        }
    }

    pub fn message(&self) -> (r: String)
        ensures
            r@ == self.message_spec(),
    {
        match self {
            ControlError::AlreadyGreeted => String::from_str("the handshake is already complete"),
            ControlError::Room(e) => e.message(),
        }
    }
}

/// What the coordinator does with one of the host's own commands.
pub enum HostStep {
    /// The host is leaving: tell everyone the room is closing, then shut down.
    Closing { notice: ToPeer },
    /// Broadcast these to the room.
    Broadcast(Vec<ToPeer>),
    /// The room turned the host down; this goes to the host's screen only.
    Refused(Event),
}

/// The notice everyone gets when the host leaves.
pub open spec fn closing_notice() -> Seq<char> {
    "the room is closing — the coordinator left"@
}

/// What the host is told of an applied command: the room's broadcast, or the refusal.
pub open spec fn host_outcome(answer: Result<Vec<ToPeer>, ControlError>, step: HostStep) -> bool {
    match answer {
        Ok(out) => step matches HostStep::Broadcast(b) && b == out,
        Err(e) => step matches HostStep::Refused(Event::Notice(text)) && text@ == "that did not work: "@ + e.message_spec(),
    }
}

/// The host's commands go through the same `apply` as everyone else's; only quitting
/// is different, because the host leaving closes the room.
pub fn host_step(room: &mut Room, me: PeerId, command: Command, at: u64) -> (r: HostStep)
    requires
        old(room).wf(),
    ensures
        final(room).wf(),
        command is Quit ==> (r matches HostStep::Closing { notice } && notice.deep_view() == ToPeerV::Notice { text: closing_notice() }) && *final(room) == *old(room),
        !(command is Quit) ==> exists|answer: Result<Vec<ToPeer>, ControlError>| #[trigger] apply_spec(
            *old(room),
            *final(room),
            me,
            wire_of(command),
            at,
            answer,
        ) && host_outcome(answer, r),
{
    match command {
        Command::Quit => HostStep::Closing { notice: ToPeer::Notice { text: String::from_str("the room is closing — the coordinator left") } },
        other => match apply(room, me, into_wire(other), at) {
            Ok(out) => {
                assert(host_outcome(Ok(out), HostStep::Broadcast(out)));
                HostStep::Broadcast(out)
            },
            Err(e) => {
                let mut text = String::from_str("that did not work: ");
                let why = e.message();
                text.append(why.as_str());
                HostStep::Refused(Event::Notice(text))
            },
        },
    }
}

/// Why joining a room stopped during the handshake.
#[derive(Debug, Clone, PartialEq, Eq)]
pub enum JoinError {
    /// The first message was not the challenge.
    UnexpectedGreeting,
    /// The coordinator turned us away, saying why.
    Rejected(String),
    /// The answer to our hello was neither a welcome nor a refusal.
    UnexpectedReply,
}

impl JoinError {
    /// The failure in words.
    pub open spec fn message_spec(self) -> Seq<char> {
        match self {
            JoinError::UnexpectedGreeting => "unexpected greeting message"@,
            JoinError::Rejected(reason) => "you were not let into the room: "@ + reason@,
            JoinError::UnexpectedReply => "unexpected reply"@,
        }
    }

    pub fn message(&self) -> (r: String)
        ensures
            r@ == self.message_spec(),
    {
        match self {
            JoinError::UnexpectedGreeting => String::from_str("unexpected greeting message"),
            JoinError::Rejected(reason) => {
                let mut text = String::from_str("you were not let into the room: ");
                text.append(reason.as_str());
                text
            },
            JoinError::UnexpectedReply => String::from_str("unexpected reply"),
        }
    }
}

/// The first thing a coordinator sends is the challenge; its nonce salts our proof.
pub fn challenge_nonce(message: ToPeer) -> (r: Result<Nonce, JoinError>)
    ensures
        match message {
            ToPeer::Challenge { nonce } => r == Ok::<Nonce, JoinError>(nonce),
            _ => r == Err::<Nonce, JoinError>(JoinError::UnexpectedGreeting),
        },
{
    match message {
        ToPeer::Challenge { nonce } => Ok(nonce),
        _ => Err(JoinError::UnexpectedGreeting),
    }
}

/// The coordinator's answer to our hello: who we are and the room, or why not.
pub fn welcome_of(reply: ToPeer) -> (r: Result<(PeerId, RoomSnapshot), JoinError>)
    ensures
        match reply {
            ToPeer::Welcome { you, room } => r == Ok::<(PeerId, RoomSnapshot), JoinError>((you, room)),
            ToPeer::Rejected { reason } => r == Err::<(PeerId, RoomSnapshot), JoinError>(JoinError::Rejected(reason)),
            _ => r == Err::<(PeerId, RoomSnapshot), JoinError>(JoinError::UnexpectedReply),
        },
{
    match reply {
        ToPeer::Welcome { you, room } => Ok((you, room)),
        ToPeer::Rejected { reason } => Err(JoinError::Rejected(reason)),
        _ => Err(JoinError::UnexpectedReply),
    }
}

/// Where an incoming connection goes. One endpoint takes both control and voice
/// connections; on a peer that is not the coordinator only voice is answered.
#[derive(Debug, Clone, Copy, PartialEq, Eq, Structural)]
pub enum Route {
    /// Into the voice mesh.
    Voice,
    /// Through the handshake, into the room.
    Control,
    /// Nowhere: audio is off, or we are not the coordinator.
    Ignore,
}

pub open spec fn route_spec(alpn: Seq<u8>, coordinator: bool, voice: bool) -> Route {
    if alpn == encode_utf8(VOICE_ALPN@) {
        if voice { Route::Voice } else { Route::Ignore }
    } else if coordinator {
        Route::Control
    } else {
        Route::Ignore
    }
}

pub fn route(alpn: &[u8], coordinator: bool, voice: bool) -> (r: Route)
    ensures
        r == route_spec(alpn@, coordinator, voice),
{
    let expected = VOICE_ALPN.as_bytes();
    let mut same = alpn.len() == expected.len();
    if same {
        let mut i: usize = 0;
        while i < alpn.len()
            invariant
                i <= alpn@.len(),
                alpn@.len() == expected@.len(),
                same == forall|k: int| 0 <= k < i ==> alpn@[k] == expected@[k],
            decreases alpn@.len() - i,
        {
            if alpn[i] != expected[i] {
                same = false;
            }
            i = i + 1;
        }
        if same {
            assert(alpn@ =~= expected@);
        }
    }
    if same {
        if voice {
            Route::Voice
        } else {
            Route::Ignore
        }
    } else if coordinator {
        Route::Control
    } else {
        Route::Ignore
    }
}

} // verus!
