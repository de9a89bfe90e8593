//! The control plane's on-the-wire types.
//!
//! Identities travel as raw `[u8; 32]`, so the protocol can be reasoned about without
//! the network layer. Framing: every control message is a `u32` little-endian length
//! prefix followed by its body.
use vstd::prelude::*;

use crate::text::string_of;

verus! {

/// The ALPN used on the control stream.
pub const ALPN: &'static str = "tincan/control/0";

/// The ALPN used in the voice mesh. Voice links are established directly between
/// peers and never pass through the coordinator.
pub const VOICE_ALPN: &'static str = "tincan/voice/0";

/// The largest single control message that will be accepted.
pub const MAX_MESSAGE_BYTES: usize = 65536;

/// Maximum number of characters in a chat message.
pub const MAX_CHAT_CHARS: usize = 2000;

/// Maximum number of characters in a nickname.
pub const MAX_NAME_CHARS: usize = 24;

/// Peer identity — the raw form of a public key.
#[derive(Debug, Clone, Copy, PartialEq, Eq, Hash, PartialOrd, Ord)]
pub struct PeerId(pub [u8; 32]);

/// Channel identity — the index into the list fixed when the room was created.
#[derive(Debug, Clone, Copy, PartialEq, Eq, Hash, PartialOrd, Ord, Structural)]
pub struct ChannelId(pub u8);

/// A lower-case hexadecimal digit.
pub open spec fn hex_digit(n: u8) -> char {
    if n < 10 {
        (48 + n) as char
    } else {
        (87 + n) as char
    }
}

/// Two hexadecimal digits for one byte, high nibble first.
pub open spec fn hex_byte(b: u8) -> Seq<char> {
    seq![hex_digit(b / 16), hex_digit(b % 16)]
}

/// The hexadecimal form of a run of bytes.
pub open spec fn hex_of(bytes: Seq<u8>) -> Seq<char>
    decreases bytes.len(),
{
    if bytes.len() == 0 {
        Seq::empty()
    } else {
        hex_of(bytes.drop_last()) + hex_byte(bytes.last())
    }
}

fn hex_char(n: u8) -> (c: char)
    requires
        n < 16,
    ensures
        c == hex_digit(n),
{
    if n < 10 {
        (48 + n) as char
    } else {
        (87 + n) as char
    }
}

/// The first `count` bytes of an identity in hexadecimal.
fn hex_prefix(id: &[u8; 32], count: usize) -> (r: String)
    requires
        count <= 32,
    ensures
        r@ == hex_of(id@.take(count as int)),
{
    let mut out: Vec<char> = Vec::new();
    let mut i: usize = 0;
    while i < count
        invariant
            i <= count <= 32,
            out@ == hex_of(id@.take(i as int)),
        decreases count - i,
    {
        let b = id[i];
        out.push(hex_char(b / 16));
        out.push(hex_char(b % 16));
        i = i + 1;
        assert(id@.take(i as int).drop_last() == id@.take(i - 1));
        assert(out@ =~= hex_of(id@.take(i as int)));
    }
    string_of(out.as_slice())
}

impl PeerId {
    /// The short form shown in the interface: the first five bytes in hex.
    pub open spec fn short_spec(self) -> Seq<char> {
        hex_of(self.0@.take(5))
    }

    /// The short form shown in the interface.
    pub fn short(&self) -> (r: String)
        ensures
            r@ == self.short_spec(),
    {
        hex_prefix(&self.0, 5)
    }

    /// The first `count` bytes of the identity in hexadecimal.
    pub fn short_prefix(&self, count: usize) -> (r: String)
        requires
            count <= 32,
        ensures
            r@ == hex_of(self.0@.take(count as int)),
    {
        hex_prefix(&self.0, count)
    }

    /// The full identity in hexadecimal, 64 characters.
    pub fn to_string(&self) -> (r: String)
        ensures
            r@ == hex_of(self.0@),
    {
        let r = hex_prefix(&self.0, 32);
        assert(self.0@.take(32) =~= self.0@);
        r
    }
}

} // verus!
verus! {

/// `a` comes before `b`, comparing bytes from index `i` on.
pub open spec fn bytes_before_from(a: Seq<u8>, b: Seq<u8>, i: nat) -> bool
    decreases a.len() - i,
{
    if i >= a.len() || i >= b.len() {
        false
    } else if a[i as int] < b[i as int] {
        true
    } else if a[i as int] > b[i as int] {
        false
    } else {
        bytes_before_from(a, b, i + 1)
    }
}

impl PeerId {
    /// The order identities are kept in: lexicographic on the key bytes, the order the
    /// derived `Ord` gives.
    pub open spec fn before(self, other: PeerId) -> bool {
        bytes_before_from(self.0@, other.0@, 0)
    }

    /// Whether two identities are the same key.
    pub fn same(&self, other: &PeerId) -> (r: bool)
        ensures
            r == (*self == *other),
    {
        let mut i: usize = 0;
        while i < 32
            invariant
                i <= 32,
                forall|j: int| 0 <= j < i ==> self.0@[j] == other.0@[j],
            decreases 32 - i,
        {
            if self.0[i] != other.0[i] {
                return false;
            }
            i = i + 1;
        }
        assert(self.0@ =~= other.0@);
        proof {
            vstd::array::axiom_array_ext_equal(self.0, other.0);
        }
        true
    }

    /// Whether this identity sorts before `other`.
    pub fn is_before(&self, other: &PeerId) -> (r: bool)
        ensures
            r == self.before(*other),
    {
        let mut i: usize = 0;
        while i < 32
            invariant
                i <= 32,
                bytes_before_from(self.0@, other.0@, 0) == bytes_before_from(self.0@, other.0@, i as nat),
            decreases 32 - i,
        {
            if self.0[i] < other.0[i] {
                return true;
            }
            if self.0[i] > other.0[i] {
                return false;
            }
            i = i + 1;
        }
        false
    }
}

proof fn lemma_before_from_irreflexive(a: Seq<u8>, i: nat)
    ensures
        !bytes_before_from(a, a, i),
    decreases a.len() - i,
{
    if i < a.len() {
        lemma_before_from_irreflexive(a, i + 1);
    }
}

proof fn lemma_before_from_transitive(a: Seq<u8>, b: Seq<u8>, c: Seq<u8>, i: nat)
    requires
        a.len() == b.len() == c.len(),
        bytes_before_from(a, b, i),
        bytes_before_from(b, c, i),
    ensures
        bytes_before_from(a, c, i),
    decreases a.len() - i,
{
    if i < a.len() && a[i as int] == b[i as int] && b[i as int] == c[i as int] {
        lemma_before_from_transitive(a, b, c, i + 1);
    }
}

proof fn lemma_before_from_total(a: Seq<u8>, b: Seq<u8>, i: nat)
    requires
        a.len() == b.len(),
        i <= a.len(),
        !bytes_before_from(a, b, i),
        !bytes_before_from(b, a, i),
    ensures
        forall|j: int| i <= j < a.len() ==> a[j] == b[j],
    decreases a.len() - i,
{
    if i < a.len() {
        lemma_before_from_total(a, b, i + 1);
    }
}

/// The identity order is a strict total order.
pub proof fn lemma_before_irreflexive(a: PeerId)
    ensures
        !a.before(a),
{
    lemma_before_from_irreflexive(a.0@, 0);
}

pub proof fn lemma_before_transitive(a: PeerId, b: PeerId, c: PeerId)
    requires
        a.before(b),
        b.before(c),
    ensures
        a.before(c),
{
    lemma_before_from_transitive(a.0@, b.0@, c.0@, 0);
}

pub proof fn lemma_before_total(a: PeerId, b: PeerId)
    ensures
        a.before(b) || b.before(a) || a == b,
{
    if !a.before(b) && !b.before(a) {
        lemma_before_from_total(a.0@, b.0@, 0);
        assert(a.0@ =~= b.0@);
        vstd::array::axiom_array_ext_equal(a.0, b.0);
    }
}

} // verus!
verus! {

/// The four little-endian bytes of a `u32`.
pub open spec fn le_bytes(x: u32) -> Seq<u8> {
    seq![(x & 0xff) as u8, ((x >> 8) & 0xff) as u8, ((x >> 16) & 0xff) as u8, ((x >> 24) & 0xff) as u8]
}

/// The `u32` that four little-endian bytes spell.
pub open spec fn from_le(b: Seq<u8>) -> u32 {
    (b[0] as u32) | ((b[1] as u32) << 8) | ((b[2] as u32) << 16) | ((b[3] as u32) << 24)
}

/// Reading back what was written gives the same number.
pub proof fn lemma_le_round_trip(x: u32)
    ensures
        from_le(le_bytes(x)) == x,
{
    let b0 = (x & 0xff) as u8;
    let b1 = ((x >> 8) & 0xff) as u8;
    let b2 = ((x >> 16) & 0xff) as u8;
    let b3 = ((x >> 24) & 0xff) as u8;
    assert(((b0 as u32) | ((b1 as u32) << 8) | ((b2 as u32) << 16) | ((b3 as u32) << 24)) == x)
        by (bit_vector)
        requires
            b0 == (x & 0xff) as u8,
            b1 == ((x >> 8) & 0xff) as u8,
            b2 == ((x >> 16) & 0xff) as u8,
            b3 == ((x >> 24) & 0xff) as u8,
    ;
}

fn le_u32(x: u32) -> (r: [u8; 4])
    ensures
        r@ == le_bytes(x),
{
    let r = [(x & 0xff) as u8, ((x >> 8) & 0xff) as u8, ((x >> 16) & 0xff) as u8, ((x >> 24) & 0xff) as u8];
    assert(r@ =~= le_bytes(x));
    r
}

fn u32_le(b0: u8, b1: u8, b2: u8, b3: u8) -> (r: u32)
    ensures
        r == from_le(seq![b0, b1, b2, b3]),
{
    (b0 as u32) | ((b1 as u32) << 8) | ((b2 as u32) << 16) | ((b3 as u32) << 24)
}

/// Voice packet header — the first bytes of the datagram.
///
/// The sender's identity is not written into the packet: a voice datagram already
/// arrives over a connection verified by public key.
#[derive(Debug, Clone, Copy, PartialEq, Eq, Structural)]
pub struct VoiceHeader {
    /// Frame sequence number; the jitter buffer uses it to order frames and detect loss.
    pub seq: u32,
    /// Which channel is being spoken into.
    pub channel: ChannelId,
}

impl VoiceHeader {
    pub const SIZE: usize = 5;

    /// The header's five bytes.
    pub open spec fn bytes(self) -> Seq<u8> {
        le_bytes(self.seq).push(self.channel.0)
    }

    /// Writes the header over the first five bytes of `buffer`.
    pub fn write_into(&self, buffer: &mut [u8])
        requires
            old(buffer)@.len() >= 5,
        ensures
            final(buffer)@ == self.bytes() + old(buffer)@.subrange(5, old(buffer)@.len() as int),
    {
        let b = le_u32(self.seq);
        buffer[0] = b[0];
        buffer[1] = b[1];
        buffer[2] = b[2];
        buffer[3] = b[3];
        buffer[4] = self.channel.0;
        assert(buffer@ =~= self.bytes() + old(buffer)@.subrange(5, old(buffer)@.len() as int));
    }

    /// What `parse` makes of a datagram: nothing unless there is a payload after the
    /// header.
    pub open spec fn parse_spec(datagram: Seq<u8>) -> Option<(VoiceHeader, Seq<u8>)> {
        if datagram.len() <= 5 {
            None
        } else {
            Some(
                (
                    VoiceHeader { seq: from_le(datagram.take(4)), channel: ChannelId(datagram[4]) },
                    datagram.skip(5),
                ),
            )
        }
    }

    /// Splits a datagram into its header and Opus payload.
    pub fn parse(datagram: &[u8]) -> (r: Option<(Self, &[u8])>)
        ensures
            match (r, Self::parse_spec(datagram@)) {
                (Some((h, p)), Some((hs, ps))) => h == hs && p@ == ps,
                (None, None) => true,
                _ => false,
            },
    {
        if datagram.len() <= 5 {
            return None;
        }
        let seq = u32_le(datagram[0], datagram[1], datagram[2], datagram[3]);
        assert(seq![datagram@[0], datagram@[1], datagram@[2], datagram@[3]] =~= datagram@.take(4));
        let header = VoiceHeader { seq, channel: ChannelId(datagram[4]) };
        let (_, payload) = datagram.split_at(5);
        Some((header, payload))
    }
}

/// A header written in front of a payload parses back to the same header and payload.
pub proof fn lemma_voice_header_round_trip(header: VoiceHeader, payload: Seq<u8>)
    requires
        payload.len() > 0,
    ensures
        VoiceHeader::parse_spec(header.bytes() + payload) == Some((header, payload)),
{
    let d = header.bytes() + payload;
    lemma_le_round_trip(header.seq);
    assert(d.take(4) =~= le_bytes(header.seq));
    assert(d.skip(5) =~= payload);
}

/// Why a control frame cannot be built or read.
#[derive(Debug, Clone, Copy, PartialEq, Eq)]
pub enum FrameError {
    /// The body is over `MAX_MESSAGE_BYTES`.
    TooLarge { len: usize },
}

/// A length-prefixed frame: four little-endian length bytes, then the body.
pub open spec fn framed(body: Seq<u8>) -> Seq<u8> {
    le_bytes(body.len() as u32) + body
}

/// Puts the length prefix in front of an encoded body.
pub fn frame(body: &[u8]) -> (r: Result<Vec<u8>, FrameError>)
    ensures
        body@.len() > MAX_MESSAGE_BYTES <==> r is Err,
        r matches Ok(v) ==> v@ == framed(body@),
        r matches Err(e) ==> e == (FrameError::TooLarge { len: body@.len() as usize }),
{
    if body.len() > MAX_MESSAGE_BYTES {
        return Err(FrameError::TooLarge { len: body.len() });
    }
    let prefix = le_u32(body.len() as u32);
    let mut framed: Vec<u8> = Vec::new();
    framed.push(prefix[0]);
    framed.push(prefix[1]);
    framed.push(prefix[2]);
    framed.push(prefix[3]);
    let mut i: usize = 0;
    while i < body.len()
        invariant
            i <= body@.len(),
            framed@ == le_bytes(body@.len() as u32) + body@.take(i as int),
        decreases body@.len() - i,
    {
        framed.push(body[i]);
        i = i + 1;
        assert(framed@ =~= le_bytes(body@.len() as u32) + body@.take(i as int));
    }
    assert(body@.take(i as int) =~= body@);
    Ok(framed)
}

/// Reads a frame's length prefix, refusing an announced body over the limit.
pub fn body_len(header: &[u8; 4]) -> (r: Result<usize, FrameError>)
    ensures
        ({
            let len = from_le(header@);
            &&& len > MAX_MESSAGE_BYTES <==> r is Err
            &&& r matches Ok(n) ==> n == len
            &&& r matches Err(e) ==> e == (FrameError::TooLarge { len: len as usize })
        }),
{
    let len = u32_le(header[0], header[1], header[2], header[3]);
    assert(seq![header@[0], header@[1], header@[2], header@[3]] =~= header@);
    if len as usize > MAX_MESSAGE_BYTES {
        Err(FrameError::TooLarge { len: len as usize })
    } else {
        Ok(len as usize)
    }
}

/// The prefix of a frame announces exactly its body's length.
pub proof fn lemma_frame_announces_its_body(body: Seq<u8>)
    requires
        body.len() <= MAX_MESSAGE_BYTES,
    ensures
        from_le(framed(body).take(4)) == body.len(),
        framed(body).skip(4) == body,
{
    lemma_le_round_trip(body.len() as u32);
    assert(framed(body).take(4) =~= le_bytes(body.len() as u32));
    assert(framed(body).skip(4) =~= body);
}

} // verus!
verus! {

/// A peer's publicly visible state.
#[derive(Debug, Clone, PartialEq, Eq)]
pub struct PeerInfo {
    pub id: PeerId,
    pub name: String,
    /// `None` means the peer is in the room but in no voice channel (text only).
    pub channel: Option<ChannelId>,
    /// Microphone off — nobody can hear them.
    pub muted: bool,
    /// Headphones off — they cannot hear anyone.
    pub deafened: bool,
}

/// What a `PeerInfo` says, with the name as characters.
pub struct PeerInfoV {
    pub id: PeerId,
    pub name: Seq<char>,
    pub channel: Option<ChannelId>,
    pub muted: bool,
    pub deafened: bool,
}

impl DeepView for PeerInfo {
    type V = PeerInfoV;

    open spec fn deep_view(&self) -> PeerInfoV {
        PeerInfoV {
            id: self.id,
            name: self.name@,
            channel: self.channel,
            muted: self.muted,
            deafened: self.deafened,
        }
    }
}

impl PeerInfo {
    /// A copy that says the same thing.
    pub fn duplicate(&self) -> (r: PeerInfo)
        ensures
            r.deep_view() == self.deep_view(),
    {
        PeerInfo {
            id: self.id,
            name: self.name.clone(),
            channel: self.channel,
            muted: self.muted,
            deafened: self.deafened,
        }
    }
}

/// One line of chat.
#[derive(Debug, Clone, PartialEq, Eq)]
pub struct ChatLine {
    pub channel: ChannelId,
    pub from: PeerId,
    pub text: String,
    /// Unix epoch seconds, on the coordinator's clock, so ordering has one source.
    pub at: u64,
}

pub struct ChatLineV {
    pub channel: ChannelId,
    pub from: PeerId,
    pub text: Seq<char>,
    pub at: u64,
}

impl DeepView for ChatLine {
    type V = ChatLineV;

    open spec fn deep_view(&self) -> ChatLineV {
        ChatLineV { channel: self.channel, from: self.from, text: self.text@, at: self.at }
    }
}

impl ChatLine {
    /// A copy that says the same thing.
    pub fn duplicate(&self) -> (r: ChatLine)
        ensures
            r.deep_view() == self.deep_view(),
    {
        ChatLine { channel: self.channel, from: self.from, text: self.text.clone(), at: self.at }
    }
}

/// The complete state handed to a peer that has just joined the room.
#[derive(Debug, Clone, PartialEq, Eq)]
pub struct RoomSnapshot {
    pub room_name: String,
    pub channels: Vec<String>,
    pub peers: Vec<PeerInfo>,
    /// Recent messages (ordered, oldest → newest).
    pub recent_chat: Vec<ChatLine>,
}

pub struct RoomSnapshotV {
    pub room_name: Seq<char>,
    pub channels: Seq<Seq<char>>,
    pub peers: Seq<PeerInfoV>,
    pub recent_chat: Seq<ChatLineV>,
}

impl DeepView for RoomSnapshot {
    type V = RoomSnapshotV;

    open spec fn deep_view(&self) -> RoomSnapshotV {
        RoomSnapshotV {
            room_name: self.room_name@,
            channels: self.channels.deep_view(),
            peers: self.peers.deep_view(),
            recent_chat: self.recent_chat.deep_view(),
        }
    }
}

/// Client → coordinator.
#[derive(Debug, Clone, PartialEq, Eq)]
pub enum ToCoordinator {
    /// Answer to the challenge: nickname + password proof.
    Hello { name: String, proof: [u8; 32] },
    /// Switch voice channel; `None` means leave voice entirely.
    SwitchChannel { channel: Option<ChannelId> },
    Chat { channel: ChannelId, text: String },
    SetMuted { muted: bool },
    SetDeafened { deafened: bool },
    /// A graceful goodbye.
    Leave,
}

/// Coordinator → client.
#[derive(Debug, Clone, PartialEq, Eq)]
pub enum ToPeer {
    /// Sent as soon as the connection is up; the salt for the password proof.
    Challenge { nonce: [u8; 16] },
    Welcome { you: PeerId, room: RoomSnapshot },
    Rejected { reason: String },
    /// Any change to the roster — the full list is sent.
    Roster { peers: Vec<PeerInfo> },
    Chat(ChatLine),
    /// System lines such as "X joined the room".
    Notice { text: String },
}

/// What a message to a peer says.
pub enum ToPeerV {
    Challenge { nonce: Seq<u8> },
    Welcome { you: PeerId, room: RoomSnapshotV },
    Rejected { reason: Seq<char> },
    Roster { peers: Seq<PeerInfoV> },
    Chat(ChatLineV),
    Notice { text: Seq<char> },
}

impl DeepView for ToPeer {
    type V = ToPeerV;

    open spec fn deep_view(&self) -> ToPeerV {
        match self {
            ToPeer::Challenge { nonce } => ToPeerV::Challenge { nonce: nonce@ },
            ToPeer::Welcome { you, room } => ToPeerV::Welcome { you: *you, room: room.deep_view() },
            ToPeer::Rejected { reason } => ToPeerV::Rejected { reason: reason@ },
            ToPeer::Roster { peers } => ToPeerV::Roster { peers: peers.deep_view() },
            ToPeer::Chat(line) => ToPeerV::Chat(line.deep_view()),
            ToPeer::Notice { text } => ToPeerV::Notice { text: text@ },
        }
    }
}

} // verus!
