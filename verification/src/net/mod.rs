//! The control plane's vocabulary: what the interface asks for and what it is told.
use vstd::prelude::*;

use crate::proto::{ChannelId, ChatLine, PeerId, PeerInfo, RoomSnapshot};

pub mod control;
pub mod voice;

verus! {

/// User actions coming from the interface.
///
/// The host and the joiner send the same commands; the interface never has to know
/// who is hosting.
#[derive(Debug, Clone, PartialEq, Eq)]
pub enum Command {
    SwitchChannel(Option<ChannelId>),
    /// The channel travels explicitly: the message must land in the channel it was
    /// written in.
    Chat { channel: ChannelId, text: String },
    SetMuted(bool),
    SetDeafened(bool),
    Quit,
}

/// Events going out to the interface.
#[derive(Debug, Clone, PartialEq, Eq)]
pub enum Event {
    Welcome { me: PeerId, room: RoomSnapshot },
    Roster(Vec<PeerInfo>),
    Chat(ChatLine),
    Notice(String),
    /// The session is over — the coordinator shut down, the link dropped, or we were
    /// rejected.
    Disconnected(String),
}

} // verus!
