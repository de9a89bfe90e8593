//! The room's authoritative state — the coordinator's single source of truth.
//!
//! Deliberately pure: no network, no clock, no audio. The roster is kept in identity
//! order, so every client lists the room the same way.
use std::collections::VecDeque;

use vstd::prelude::*;

use crate::proto::{
    hex_of, lemma_before_irreflexive, lemma_before_total, lemma_before_transitive, ChannelId,
    ChatLine, ChatLineV, PeerId, PeerInfo, PeerInfoV, RoomSnapshot, RoomSnapshotV,
    MAX_CHAT_CHARS, MAX_NAME_CHARS,
};
use crate::text::{chars_of, decimal, decimal_string, is_control, is_ctrl, string_of, trim, trim_chars};
use vstd::string::StringExecFns;

verus! {

/// How many chat lines are kept in memory and handed to a newcomer.
pub const CHAT_HISTORY: usize = 200;

/// Why the room turned a request down.
#[derive(Debug, Clone, Copy, PartialEq, Eq)]
pub enum RoomError {
    /// A room needs at least one channel.
    NoChannels,
    /// Channel indices are a `u8`.
    TooManyChannels,
    /// A channel name is empty once trimmed.
    EmptyChannelName,
    /// A nickname is empty once cleaned up.
    EmptyName,
    /// The identity is not in the room.
    NotInRoom,
    /// The channel index is past the end of the list.
    NoSuchChannel { index: u8 },
    /// A chat message is empty once trimmed.
    EmptyMessage,
    /// A chat message is over `MAX_CHAT_CHARS`.
    MessageTooLong { chars: usize },
}

impl RoomError {
    /// The sentence a person is shown for this refusal.
    pub open spec fn message_spec(self) -> Seq<char> {
        match self {
            RoomError::NoChannels => "a room needs at least one channel"@,
            RoomError::TooManyChannels => "too many channels"@,
            RoomError::EmptyChannelName => "a channel name cannot be empty"@,
            RoomError::EmptyName => "a nickname cannot be empty"@,
            RoomError::NotInRoom => "you are not in the room"@,
            RoomError::NoSuchChannel { index } => "no such channel: "@ + decimal(index as nat),
            RoomError::EmptyMessage => "an empty message cannot be sent"@,
            RoomError::MessageTooLong { chars } => "message too long ("@ + decimal(chars as nat)
                + " characters, limit "@ + decimal(MAX_CHAT_CHARS as nat) + ")"@,
        }
    }

    /// The refusal in words, as it is sent back to whoever asked.
    pub fn message(&self) -> (r: String)
        ensures
            r@ == self.message_spec(),
    {
        match self {
            RoomError::NoChannels => String::from_str("a room needs at least one channel"),
            RoomError::TooManyChannels => String::from_str("too many channels"),
            RoomError::EmptyChannelName => String::from_str("a channel name cannot be empty"),
            RoomError::EmptyName => String::from_str("a nickname cannot be empty"),
            RoomError::NotInRoom => String::from_str("you are not in the room"),
            RoomError::NoSuchChannel { index } => {
                let mut text = String::from_str("no such channel: ");
                let number = decimal_string(*index as u64);
                text.append(number.as_str());
                text
            },
            RoomError::EmptyMessage => String::from_str("an empty message cannot be sent"),
            RoomError::MessageTooLong { chars } => {
                let mut text = String::from_str("message too long (");
                let count = decimal_string(*chars as u64);
                text.append(count.as_str());
                text.append(" characters, limit ");
                let limit = decimal_string(MAX_CHAT_CHARS as u64);
                text.append(limit.as_str());
                text.append(")");
                text
            },
        }
    }
}

// ── The roster as a sequence kept in identity order ─────────────────────────────

/// Every identity comes strictly before the ones after it.
pub open spec fn ids_sorted(s: Seq<PeerInfoV>) -> bool {
    forall|i: int, j: int| 0 <= i < j < s.len() ==> (#[trigger] s[i]).id.before((#[trigger] s[j]).id)
}

/// Whether the roster lists this identity.
pub open spec fn lists(s: Seq<PeerInfoV>, id: PeerId) -> bool {
    exists|i: int| 0 <= i < s.len() && (#[trigger] s[i]).id == id
}

/// The roster as a map from identity to what is known of it.
pub open spec fn roster_map(s: Seq<PeerInfoV>) -> Map<PeerId, PeerInfoV> {
    Map::new(
        |k: PeerId| lists(s, k),
        |k: PeerId| s[choose|i: int| 0 <= i < s.len() && (#[trigger] s[i]).id == k],
    )
}

proof fn lemma_sorted_unique(s: Seq<PeerInfoV>)
    requires
        ids_sorted(s),
    ensures
        forall|i: int, j: int|
            0 <= i < s.len() && 0 <= j < s.len() && (#[trigger] s[i]).id == (#[trigger] s[j]).id
                ==> i == j,
{
    assert forall|i: int, j: int|
        0 <= i < s.len() && 0 <= j < s.len() && (#[trigger] s[i]).id == (#[trigger] s[j]).id
            implies i == j by {
        if i < j {
            lemma_before_irreflexive(s[i].id);
        } else if j < i {
            lemma_before_irreflexive(s[j].id);
        }
    }
}

/// In a sorted roster each entry is what the map says of its identity.
proof fn lemma_map_entry(s: Seq<PeerInfoV>, i: int)
    requires
        ids_sorted(s),
        0 <= i < s.len(),
    ensures
        roster_map(s).contains_key(s[i].id),
        roster_map(s)[s[i].id] == s[i],
{
    lemma_sorted_unique(s);
    assert(lists(s, s[i].id));
    let j = choose|j: int| 0 <= j < s.len() && (#[trigger] s[j]).id == s[i].id;
    assert(j == i);
}

proof fn lemma_map_all_entries(s: Seq<PeerInfoV>)
    requires
        ids_sorted(s),
    ensures
        forall|i: int|
            0 <= i < s.len() ==> roster_map(s).contains_key((#[trigger] s[i]).id) && roster_map(
                s,
            )[s[i].id] == s[i],
{
    assert forall|i: int| 0 <= i < s.len() implies roster_map(s).contains_key(
        (#[trigger] s[i]).id,
    ) && roster_map(s)[s[i].id] == s[i] by {
        lemma_map_entry(s, i);
    }
}

/// Two sorted rosters that agree on every identity are the same map.
proof fn lemma_map_update(s: Seq<PeerInfoV>, i: int, v: PeerInfoV)
    requires
        ids_sorted(s),
        0 <= i < s.len(),
        v.id == s[i].id,
    ensures
        ids_sorted(s.update(i, v)),
        roster_map(s.update(i, v)) == roster_map(s).insert(v.id, v),
{
    let t = s.update(i, v);
    assert(ids_sorted(t)) by {
        assert forall|a: int, b: int| 0 <= a < b < t.len() implies (#[trigger] t[a]).id.before(
            (#[trigger] t[b]).id,
        ) by {
            assert(s[a].id.before(s[b].id));
        }
    }
    lemma_map_all_entries(s);
    lemma_map_all_entries(t);
    let m = roster_map(s).insert(v.id, v);
    assert forall|k: PeerId| roster_map(t).contains_key(k) == m.contains_key(k) by {
        if lists(t, k) {
            let j = choose|j: int| 0 <= j < t.len() && (#[trigger] t[j]).id == k;
            if j != i {
                assert(s[j].id == k);
            }
        }
        if lists(s, k) {
            let j = choose|j: int| 0 <= j < s.len() && (#[trigger] s[j]).id == k;
            assert(t[j].id == k);
        }
    }
    assert forall|k: PeerId| #[trigger] roster_map(t).contains_key(k) implies roster_map(t)[k]
        == m[k] by {
        let j = choose|j: int| 0 <= j < t.len() && (#[trigger] t[j]).id == k;
        if j != i {
            assert(s[j].id == k);
            lemma_sorted_unique(s);
        }
    }
    assert(roster_map(t) =~= m);
}

proof fn lemma_map_insert(s: Seq<PeerInfoV>, pos: int, v: PeerInfoV)
    requires
        ids_sorted(s),
        0 <= pos <= s.len(),
        forall|i: int| 0 <= i < pos ==> (#[trigger] s[i]).id.before(v.id),
        forall|i: int| pos <= i < s.len() ==> v.id.before((#[trigger] s[i]).id),
    ensures
        ids_sorted(s.insert(pos, v)),
        roster_map(s.insert(pos, v)) == roster_map(s).insert(v.id, v),
{
    let t = s.insert(pos, v);
    assert(ids_sorted(t)) by {
        assert forall|a: int, b: int| 0 <= a < b < t.len() implies (#[trigger] t[a]).id.before(
            (#[trigger] t[b]).id,
        ) by {
            if b < pos {
                assert(s[a].id.before(s[b].id));
            } else if b == pos {
            } else if a < pos {
                assert(s[a].id.before(v.id));
                assert(v.id.before(s[b - 1].id));
                lemma_before_transitive(s[a].id, v.id, s[b - 1].id);
            } else if a == pos {
            } else {
                assert(s[a - 1].id.before(s[b - 1].id));
            }
        }
    }
    lemma_map_all_entries(s);
    lemma_map_all_entries(t);
    let m = roster_map(s).insert(v.id, v);
    assert forall|k: PeerId| roster_map(t).contains_key(k) == m.contains_key(k) by {
        if lists(t, k) {
            let j = choose|j: int| 0 <= j < t.len() && (#[trigger] t[j]).id == k;
            if j < pos {
                assert(s[j].id == k);
            } else if j > pos {
                assert(s[j - 1].id == k);
            }
        }
        if lists(s, k) {
            let j = choose|j: int| 0 <= j < s.len() && (#[trigger] s[j]).id == k;
            if j < pos {
                assert(t[j].id == k);
            } else {
                assert(t[j + 1].id == k);
            }
        }
        if k == v.id {
            assert(t[pos].id == k);
        }
    }
    assert forall|k: PeerId| #[trigger] roster_map(t).contains_key(k) implies roster_map(t)[k]
        == m[k] by {
        let j = choose|j: int| 0 <= j < t.len() && (#[trigger] t[j]).id == k;
        if j < pos {
            assert(s[j].id == k);
            lemma_before_irreflexive(k);
        } else if j > pos {
            assert(s[j - 1].id == k);
            lemma_before_irreflexive(k);
        }
    }
    assert(roster_map(t) =~= m);
}

proof fn lemma_map_remove(s: Seq<PeerInfoV>, i: int)
    requires
        ids_sorted(s),
        0 <= i < s.len(),
    ensures
        ids_sorted(s.remove(i)),
        roster_map(s.remove(i)) == roster_map(s).remove(s[i].id),
{
    let t = s.remove(i);
    let gone = s[i].id;
    assert(ids_sorted(t)) by {
        assert forall|a: int, b: int| 0 <= a < b < t.len() implies (#[trigger] t[a]).id.before(
            (#[trigger] t[b]).id,
        ) by {
            let sa = if a < i { a } else { a + 1 };
            let sb = if b < i { b } else { b + 1 };
            assert(s[sa].id.before(s[sb].id));
        }
    }
    lemma_sorted_unique(s);
    lemma_map_all_entries(s);
    lemma_map_all_entries(t);
    let m = roster_map(s).remove(gone);
    assert forall|k: PeerId| roster_map(t).contains_key(k) == m.contains_key(k) by {
        if lists(t, k) {
            let j = choose|j: int| 0 <= j < t.len() && (#[trigger] t[j]).id == k;
            let sj = if j < i { j } else { j + 1 };
            assert(s[sj].id == k);
        }
        if lists(s, k) && k != gone {
            let j = choose|j: int| 0 <= j < s.len() && (#[trigger] s[j]).id == k;
            if j < i {
                assert(t[j].id == k);
            } else {
                assert(t[j - 1].id == k);
            }
        }
    }
    assert forall|k: PeerId| #[trigger] roster_map(t).contains_key(k) implies roster_map(t)[k]
        == m[k] by {
        let j = choose|j: int| 0 <= j < t.len() && (#[trigger] t[j]).id == k;
        let sj = if j < i { j } else { j + 1 };
        assert(s[sj].id == k);
    }
    assert(roster_map(t) =~= m);
}

// ── Names ───────────────────────────────────────────────────────────────────────

/// A character with ASCII capitals folded to lower case.
pub open spec fn ascii_lower(c: char) -> char {
    if 'A' <= c && c <= 'Z' {
        ((c as u32) + 32) as char
    } else {
        c
    }
}

/// `str::eq_ignore_ascii_case`, on characters.
pub open spec fn same_ignoring_ascii_case(a: Seq<char>, b: Seq<char>) -> bool {
    &&& a.len() == b.len()
    &&& forall|i: int| 0 <= i < a.len() ==> ascii_lower(#[trigger] a[i]) == ascii_lower(b[i])
}

/// The characters that are not control characters, in order.
pub open spec fn without_controls(s: Seq<char>) -> Seq<char>
    decreases s.len(),
{
    if s.len() == 0 {
        Seq::empty()
    } else if is_ctrl(s.last()) {
        without_controls(s.drop_last())
    } else {
        without_controls(s.drop_last()).push(s.last())
    }
}

/// A requested nickname once trimmed, stripped of control characters, capped and
/// trimmed again.
pub open spec fn cleaned_name(requested: Seq<char>) -> Seq<char> {
    let kept = without_controls(trim(requested));
    let capped = if kept.len() > MAX_NAME_CHARS { kept.take(MAX_NAME_CHARS as int) } else { kept };
    trim(capped)
}

/// Whether somebody else in the room already goes by `name`, ignoring ASCII case.
pub open spec fn name_taken(members: Map<PeerId, PeerInfoV>, id: PeerId, name: Seq<char>) -> bool {
    exists|k: PeerId|
        #[trigger] members.contains_key(k) && k != id && same_ignoring_ascii_case(
            members[k].name,
            name,
        )
}

/// The display name a join ends up with, or `None` when nothing is left of the
/// request. A clash is broken with the first four hex digits of the identity.
pub open spec fn display_name(members: Map<PeerId, PeerInfoV>, id: PeerId, requested: Seq<char>) -> Option<Seq<char>> {
    let name = cleaned_name(requested);
    if name.len() == 0 {
        None
    } else if name_taken(members, id, name) {
        Some(name + seq!['#'] + hex_of(id.0@.take(2)))
    } else {
        Some(name)
    }
}

pub(crate) fn lower_char(c: char) -> (r: char)
    ensures
        r == ascii_lower(c),
{
    if 'A' <= c && c <= 'Z' {
        ((c as u8) + 32) as char
    } else {
        c
    }
}

pub(crate) fn same_ignoring_case(a: &[char], b: &[char]) -> (r: bool)
    ensures
        r == same_ignoring_ascii_case(a@, b@),
{
    if a.len() != b.len() {
        return false;
    }
    let mut i: usize = 0;
    while i < a.len()
        invariant
            i <= a@.len(),
            a@.len() == b@.len(),
            forall|j: int| 0 <= j < i ==> ascii_lower(#[trigger] a@[j]) == ascii_lower(b@[j]),
        decreases a@.len() - i,
    {
        if lower_char(a[i]) != lower_char(b[i]) {
            return false;
        }
        i = i + 1;
    }
    true
}

fn drop_controls(s: &[char]) -> (r: Vec<char>)
    ensures
        r@ == without_controls(s@),
{
    let mut out: Vec<char> = Vec::new();
    let mut i: usize = 0;
    while i < s.len()
        invariant
            i <= s@.len(),
            out@ == without_controls(s@.take(i as int)),
        decreases s@.len() - i,
    {
        let c = s[i];
        i = i + 1;
        assert(s@.take(i as int).drop_last() == s@.take(i - 1));
        if !is_control(c) {
            out.push(c);
        }
    }
    assert(s@.take(i as int) == s@);
    out
}

// ── The room ────────────────────────────────────────────────────────────────────

pub struct Room {
    name: String,
    channels: Vec<String>,
    /// Kept in identity order, so the roster reads the same on every client.
    peers: Vec<PeerInfo>,
    /// The recent chat, oldest first, at most `CHAT_HISTORY` lines.
    chat: VecDeque<ChatLine>,
}

/// The last `CHAT_HISTORY` lines of a history.
pub open spec fn bounded_history(s: Seq<ChatLineV>) -> Seq<ChatLineV> {
    if s.len() > CHAT_HISTORY {
        s.skip(s.len() - CHAT_HISTORY)
    } else {
        s
    }
}

impl Room {
    /// The room's name.
    pub closed spec fn name_v(&self) -> Seq<char> {
        self.name@
    }

    /// The channel names, fixed when the room was created.
    pub closed spec fn channels_v(&self) -> Seq<Seq<char>> {
        self.channels.deep_view()
    }

    /// Everyone in the room, in identity order.
    pub closed spec fn roster_v(&self) -> Seq<PeerInfoV> {
        self.peers.deep_view()
    }

    /// The recent chat, oldest first.
    pub closed spec fn chat_v(&self) -> Seq<ChatLineV> {
        self.chat.deep_view()
    }

    /// Everyone in the room, by identity.
    pub open spec fn members(&self) -> Map<PeerId, PeerInfoV> {
        roster_map(self.roster_v())
    }

    /// The room's invariant: a channel list a `u8` can index, with no empty names, a
    /// roster in strict identity order, and a bounded chat history.
    pub closed spec fn wf(&self) -> bool {
        &&& 1 <= self.channels@.len() <= 255
        &&& forall|i: int| 0 <= i < self.channels@.len() ==> (#[trigger] self.channels@[i])@.len() > 0
        &&& ids_sorted(self.peers.deep_view())
        &&& self.chat@.len() <= CHAT_HISTORY
    }

    /// What every well-formed room promises its users.
    pub proof fn lemma_wf(&self)
        requires
            self.wf(),
        ensures
            1 <= self.channels_v().len() <= 255,
            ids_sorted(self.roster_v()),
            self.chat_v().len() <= CHAT_HISTORY,
            forall|i: int|
                0 <= i < self.roster_v().len() ==> self.members().contains_key(
                    (#[trigger] self.roster_v()[i]).id,
                ) && self.members()[self.roster_v()[i].id] == self.roster_v()[i],
            forall|k: PeerId|
                #[trigger] self.members().contains_key(k) ==> lists(self.roster_v(), k),
    {
        lemma_map_all_entries(self.roster_v());
    }

    /// Opens a room. Channel names are trimmed; there has to be at least one, at most
    /// as many as a `u8` can index, and none of them empty.
    pub fn new(name: &str, channels: Vec<String>) -> (r: Result<Room, RoomError>)
        ensures
            channels@.len() == 0 ==> r == Err::<Room, RoomError>(RoomError::NoChannels),
            channels@.len() > 255 ==> r == Err::<Room, RoomError>(RoomError::TooManyChannels),
            1 <= channels@.len() <= 255 ==> ((exists|i: int|
                0 <= i < channels@.len() && trim((#[trigger] channels@[i])@).len() == 0) <==> r
                == Err::<Room, RoomError>(RoomError::EmptyChannelName)),
            1 <= channels@.len() <= 255 && (forall|i: int|
                0 <= i < channels@.len() ==> trim((#[trigger] channels@[i])@).len() > 0) ==> r is Ok,
            r matches Ok(room) ==> {
                &&& room.wf()
                &&& room.name_v() == name@
                &&& room.channels_v().len() == channels@.len()
                &&& forall|i: int|
                    0 <= i < channels@.len() ==> #[trigger] room.channels_v()[i] == trim(
                        channels@[i]@,
                    )
                &&& room.roster_v().len() == 0
                &&& room.chat_v().len() == 0
            },
    {
        let mut trimmed: Vec<String> = Vec::new();
        let mut i: usize = 0;
        while i < channels.len()
            invariant
                i <= channels@.len(),
                trimmed@.len() == i,
                forall|j: int| 0 <= j < i ==> (#[trigger] trimmed@[j])@ == trim(channels@[j]@),
            decreases channels@.len() - i,
        {
            let cs = chars_of(channels[i].as_str());
            let t = trim_chars(cs.as_slice());
            trimmed.push(string_of(t.as_slice()));
            i = i + 1;
        }
        if trimmed.len() == 0 {
            return Err(RoomError::NoChannels);
        }
        if trimmed.len() > 255 {
            return Err(RoomError::TooManyChannels);
        }
        let mut k: usize = 0;
        while k < trimmed.len()
            invariant
                k <= trimmed@.len(),
                1 <= trimmed@.len() <= 255,
                trimmed@.len() == channels@.len(),
                forall|j: int| 0 <= j < trimmed@.len() ==> (#[trigger] trimmed@[j])@ == trim(channels@[j]@),
                forall|j: int| 0 <= j < k ==> (#[trigger] trimmed@[j])@.len() > 0,
            decreases trimmed@.len() - k,
        {
            if trimmed[k].as_str().is_empty() {
                assert(trim(channels@[k as int]@).len() == 0);
                return Err(RoomError::EmptyChannelName);
            }
            k = k + 1;
        }
        assert forall|j: int| 0 <= j < channels@.len() implies trim((#[trigger] channels@[j])@).len() > 0 by {
            assert(trimmed@[j]@.len() > 0);
        }
        let room = Room {
            name: String::from_str(name),
            channels: trimmed,
            peers: Vec::new(),
            chat: VecDeque::new(),
        };
        assert(room.channels.deep_view().len() == channels@.len());
        assert(room.peers.deep_view() =~= Seq::<PeerInfoV>::empty());
        assert(room.chat.deep_view() =~= Seq::<ChatLineV>::empty());
        Ok(room)
    }

    pub fn channels(&self) -> (r: &[String])
        ensures
            r.deep_view() == self.channels_v(),
    {
        self.channels.as_slice()
    }

    /// Everyone in the room, in identity order.
    pub fn roster(&self) -> (r: Vec<PeerInfo>)
        ensures
            r.deep_view() == self.roster_v(),
    {
        let mut out: Vec<PeerInfo> = Vec::new();
        let mut i: usize = 0;
        while i < self.peers.len()
            invariant
                i <= self.peers@.len(),
                out@.len() == i,
                forall|j: int| 0 <= j < i ==> (#[trigger] out@[j]).deep_view() == self.peers@[j].deep_view(),
            decreases self.peers@.len() - i,
        {
            out.push(self.peers[i].duplicate());
            i = i + 1;
        }
        assert(out.deep_view() =~= self.peers.deep_view());
        out
    }

    fn recent_chat(&self) -> (r: Vec<ChatLine>)
        ensures
            r.deep_view() == self.chat_v(),
    {
        broadcast use vstd::std_specs::vecdeque::group_vec_dequeue_axioms;

        let mut out: Vec<ChatLine> = Vec::new();
        let mut i: usize = 0;
        while i < self.chat.len()
            invariant
                i <= self.chat@.len(),
                out@.len() == i,
                forall|j: int| 0 <= j < i ==> (#[trigger] out@[j]).deep_view() == self.chat@[j].deep_view(),
            decreases self.chat@.len() - i,
        {
            out.push(self.chat[i].duplicate());
            i = i + 1;
        }
        assert(out.deep_view() =~= self.chat.deep_view());
        out
    }

    fn channel_names(&self) -> (r: Vec<String>)
        ensures
            r.deep_view() == self.channels_v(),
    {
        let mut out: Vec<String> = Vec::new();
        let mut i: usize = 0;
        while i < self.channels.len()
            invariant
                i <= self.channels@.len(),
                out@.len() == i,
                forall|j: int| 0 <= j < i ==> (#[trigger] out@[j]).deep_view() == self.channels@[j].deep_view(),
            decreases self.channels@.len() - i,
        {
            out.push(self.channels[i].clone());
            i = i + 1;
        }
        assert(out.deep_view() =~= self.channels.deep_view());
        out
    }

    /// Everything a newcomer needs: the name, the channels, the roster and the recent
    /// chat.
    pub fn snapshot(&self) -> (r: RoomSnapshot)
        ensures
            r.deep_view() == (RoomSnapshotV {
                room_name: self.name_v(),
                channels: self.channels_v(),
                peers: self.roster_v(),
                recent_chat: self.chat_v(),
            }),
    {
        RoomSnapshot {
            room_name: self.name.clone(),
            channels: self.channel_names(),
            peers: self.roster(),
            recent_chat: self.recent_chat(),
        }
    }
}


/// The identities of the roster entries sitting in a voice channel, in roster order.
pub open spec fn ids_in_channel(s: Seq<PeerInfoV>, channel: ChannelId) -> Seq<PeerId>
    decreases s.len(),
{
    if s.len() == 0 {
        Seq::empty()
    } else if s.last().channel == Some(channel) {
        ids_in_channel(s.drop_last(), channel).push(s.last().id)
    } else {
        ids_in_channel(s.drop_last(), channel)
    }
}

/// Whether a requested voice channel is one the room has (leaving voice always is).
pub open spec fn channel_fits(channel: Option<ChannelId>, count: nat) -> bool {
    match channel {
        Some(c) => c.0 < count,
        None => true,
    }
}

/// Where a search for `id` stopped in a sorted roster, and what that says.
proof fn lemma_locate(s: Seq<PeerInfoV>, r: int, id: PeerId)
    requires
        ids_sorted(s),
        0 <= r <= s.len(),
        forall|i: int| 0 <= i < r ==> (#[trigger] s[i]).id.before(id),
        r < s.len() ==> !s[r].id.before(id),
    ensures
        (r < s.len() && s[r].id == id) <==> lists(s, id),
        !(r < s.len() && s[r].id == id) ==> forall|i: int|
            r <= i < s.len() ==> id.before((#[trigger] s[i]).id),
{
    if !(r < s.len() && s[r].id == id) {
        if r < s.len() {
            lemma_before_total(s[r].id, id);
        }
        assert forall|i: int| r <= i < s.len() implies id.before((#[trigger] s[i]).id) by {
            if i > r {
                assert(s[r].id.before(s[i].id));
                lemma_before_transitive(id, s[r].id, s[i].id);
            }
        }
        assert forall|i: int| 0 <= i < s.len() implies (#[trigger] s[i]).id != id by {
            if i < r {
                lemma_before_irreflexive(id);
            } else {
                lemma_before_irreflexive(id);
            }
        }
    }
}

impl Room {
    /// The first roster position whose identity does not come before `id`.
    fn locate(&self, id: &PeerId) -> (r: usize)
        requires
            self.wf(),
        ensures
            r <= self.roster_v().len(),
            forall|i: int| 0 <= i < r ==> (#[trigger] self.roster_v()[i]).id.before(*id),
            r < self.roster_v().len() ==> !self.roster_v()[r as int].id.before(*id),
    {
        let mut i: usize = 0;
        while i < self.peers.len()
            invariant
                i <= self.peers@.len(),
                forall|j: int| 0 <= j < i ==> (#[trigger] self.peers.deep_view()[j]).id.before(*id),
            decreases self.peers@.len() - i,
        {
            if !self.peers[i].id.is_before(id) {
                return i;
            }
            i = i + 1;
        }
        i
    }

    /// Where `id` sits in the roster, if it is there.
    fn index_of(&self, id: &PeerId) -> (r: Option<usize>)
        requires
            self.wf(),
        ensures
            r is Some <==> self.members().contains_key(*id),
            r matches Some(i) ==> i < self.roster_v().len() && self.roster_v()[i as int].id == *id
                && self.members()[*id] == self.roster_v()[i as int],
    {
        let r = self.locate(id);
        proof {
            lemma_locate(self.roster_v(), r as int, *id);
        }
        if r < self.peers.len() && self.peers[r].id.same(id) {
            proof {
                lemma_map_entry(self.roster_v(), r as int);
            }
            Some(r)
        } else {
            None
        }
    }

    pub fn get(&self, id: &PeerId) -> (r: Option<&PeerInfo>)
        requires
            self.wf(),
        ensures
            r is Some <==> self.members().contains_key(*id),
            r matches Some(p) ==> p.deep_view() == self.members()[*id],
    {
        match self.index_of(id) {
            Some(i) => Some(&self.peers[i]),
            None => None,
        }
    }

    /// Peers in the same voice channel — this is what decides who the mesh connects to.
    pub fn peers_in_channel(&self, channel: ChannelId) -> (r: Vec<PeerId>)
        ensures
            r@ == ids_in_channel(self.roster_v(), channel),
    {
        let mut out: Vec<PeerId> = Vec::new();
        let mut i: usize = 0;
        while i < self.peers.len()
            invariant
                i <= self.peers@.len(),
                out@ == ids_in_channel(self.peers.deep_view().take(i as int), channel),
            decreases self.peers@.len() - i,
        {
            let here = match self.peers[i].channel {
                Some(c) => c.0 == channel.0,
                None => false,
            };
            if here {
                out.push(self.peers[i].id);
            }
            i = i + 1;
            assert(self.peers.deep_view().take(i as int).drop_last() =~= self.peers.deep_view().take(i - 1));
        }
        assert(self.peers.deep_view().take(i as int) =~= self.peers.deep_view());
        out
    }

    /// Cleans up a nickname and makes it unique within the room.
    fn sanitize_name(&self, id: &PeerId, requested: &str) -> (r: Result<String, RoomError>)
        requires
            self.wf(),
        ensures
            match display_name(self.members(), *id, requested@) {
                None => r == Err::<String, RoomError>(RoomError::EmptyName),
                Some(name) => r matches Ok(s) && s@ == name,
            },
    {
        let chars = chars_of(requested);
        let first = trim_chars(chars.as_slice());
        let kept = drop_controls(first.as_slice());
        let mut capped: Vec<char> = Vec::new();
        let mut i: usize = 0;
        while i < kept.len() && i < MAX_NAME_CHARS
            invariant
                i <= kept@.len(),
                i <= MAX_NAME_CHARS,
                capped@ == kept@.take(i as int),
            decreases kept@.len() - i,
        {
            capped.push(kept[i]);
            i = i + 1;
            assert(capped@ =~= kept@.take(i as int));
        }
        assert(capped@ == (if kept@.len() > MAX_NAME_CHARS { kept@.take(MAX_NAME_CHARS as int) } else { kept@ })) by {
            if kept@.len() <= MAX_NAME_CHARS {
                assert(kept@.take(i as int) =~= kept@);
            }
        }
        let name = trim_chars(capped.as_slice());
        if name.len() == 0 {
            return Err(RoomError::EmptyName);
        }

        // Somebody else already using the name gets it disambiguated with the short
        // id — nobody is turned away.
        let mut taken = false;
        let mut k: usize = 0;
        while k < self.peers.len()
            invariant
                self.wf(),
                k <= self.peers@.len(),
                taken <==> exists|j: int|
                    0 <= j < k && (#[trigger] self.roster_v()[j]).id != *id
                        && same_ignoring_ascii_case(self.roster_v()[j].name, name@),
            decreases self.peers@.len() - k,
        {
            let ghost entry = self.roster_v()[k as int];
            assert(entry.id == self.peers@[k as int].id && entry.name == self.peers@[k as int].name@);
            if !self.peers[k].id.same(id) {
                let other = chars_of(self.peers[k].name.as_str());
                if same_ignoring_case(other.as_slice(), name.as_slice()) {
                    taken = true;
                }
            }
            k = k + 1;
        }
        proof {
            let s = self.roster_v();
            self.lemma_wf();
            if taken {
                let j = choose|j: int|
                    0 <= j < s.len() && (#[trigger] s[j]).id != *id && same_ignoring_ascii_case(s[j].name, name@);
                assert(self.members().contains_key(s[j].id));
            } else {
                assert forall|q: PeerId| #[trigger] self.members().contains_key(q) && q != *id implies !same_ignoring_ascii_case(self.members()[q].name, name@) by {
                    let j = choose|j: int| 0 <= j < s.len() && (#[trigger] s[j]).id == q;
                    assert(self.members()[q] == s[j]);
                }
            }
        }
        if taken {
            let mut full = name;
            full.push('#');
            let hex = crate::proto::PeerId::short_prefix(id, 2);
            let hex_chars = chars_of(hex.as_str());
            let mut h: usize = 0;
            let ghost base = full@;
            while h < hex_chars.len()
                invariant
                    h <= hex_chars@.len(),
                    full@ == base + hex_chars@.take(h as int),
                decreases hex_chars@.len() - h,
            {
                full.push(hex_chars[h]);
                h = h + 1;
                assert(full@ =~= base + hex_chars@.take(h as int));
            }
            assert(hex_chars@.take(h as int) =~= hex_chars@);
            Ok(string_of(full.as_slice()))
        } else {
            Ok(string_of(name.as_slice()))
        }
    }

    /// Joins the room. Re-joining with the same identity refreshes the record (a
    /// reconnect): back outside voice, unmuted, under the new name.
    ///
    /// Returns the final display name, which may have been altered to break a clash.
    pub fn join(&mut self, id: PeerId, requested_name: &str) -> (r: Result<String, RoomError>)
        requires
            old(self).wf(),
        ensures
            final(self).wf(),
            match display_name(old(self).members(), id, requested_name@) {
                None => r == Err::<String, RoomError>(RoomError::EmptyName) && *final(self) == *old(self),
                Some(name) => r matches Ok(s) && s@ == name && final(self).members() == old(self).members().insert(
                    id,
                    PeerInfoV { id, name, channel: None, muted: false, deafened: false },
                ) && final(self).chat_v() == old(self).chat_v() && final(self).channels_v() == old(
                    self,
                ).channels_v() && final(self).name_v() == old(self).name_v(),
            },
    {
        let name = match self.sanitize_name(&id, requested_name) {
            Ok(name) => name,
            Err(e) => return Err(e),
        };
        let info = PeerInfo { id, name: name.clone(), channel: None, muted: false, deafened: false };
        let pos = self.locate(&id);
        proof {
            lemma_locate(self.roster_v(), pos as int, id);
        }
        let ghost before = self.roster_v();
        if pos < self.peers.len() && self.peers[pos].id.same(&id) {
            self.peers.set(pos, info);
            proof {
                lemma_map_update(before, pos as int, info.deep_view());
                assert(self.roster_v() =~= before.update(pos as int, info.deep_view()));
            }
        } else {
            self.peers.insert(pos, info);
            proof {
                lemma_map_insert(before, pos as int, info.deep_view());
                assert(self.roster_v() =~= before.insert(pos as int, info.deep_view()));
            }
        }
        Ok(name)
    }

    /// Takes a peer out of the room, returning what the room knew of them.
    pub fn leave(&mut self, id: &PeerId) -> (r: Option<PeerInfo>)
        requires
            old(self).wf(),
        ensures
            final(self).wf(),
            r is Some <==> old(self).members().contains_key(*id),
            r matches Some(p) ==> p.deep_view() == old(self).members()[*id],
            final(self).members() == old(self).members().remove(*id),
            final(self).chat_v() == old(self).chat_v(),
            final(self).channels_v() == old(self).channels_v(),
            final(self).name_v() == old(self).name_v(),
    {
        match self.index_of(id) {
            Some(i) => {
                let ghost before = self.roster_v();
                let gone = self.peers.remove(i);
                proof {
                    lemma_map_remove(before, i as int);
                    assert(self.roster_v() =~= before.remove(i as int));
                }
                Some(gone)
            },
            None => {
                assert(old(self).members().remove(*id) =~= old(self).members());
                None
            },
        }
    }

    pub fn switch_channel(&mut self, id: &PeerId, channel: Option<ChannelId>) -> (r: Result<(), RoomError>)
        requires
            old(self).wf(),
        ensures
            final(self).wf(),
            match channel {
                Some(c) => c.0 >= old(self).channels_v().len() ==> r == Err::<(), RoomError>(
                    RoomError::NoSuchChannel { index: c.0 },
                ),
                None => true,
            },
            channel_fits(channel, old(self).channels_v().len()) && !old(self).members().contains_key(*id)
                ==> r == Err::<(), RoomError>(RoomError::NotInRoom),
            channel_fits(channel, old(self).channels_v().len()) && old(self).members().contains_key(*id) ==> r is Ok,
            r is Err ==> *final(self) == *old(self),
            r is Ok ==> final(self).members() == old(self).members().insert(
                *id,
                PeerInfoV { channel, ..old(self).members()[*id] },
            ) && final(self).chat_v() == old(self).chat_v() && final(self).channels_v() == old(
                self,
            ).channels_v() && final(self).name_v() == old(self).name_v(),
    {
        if let Some(c) = channel {
            if c.0 as usize >= self.channels.len() {
                return Err(RoomError::NoSuchChannel { index: c.0 });
            }
        }
        match self.index_of(id) {
            Some(i) => {
                let ghost before = self.roster_v();
                let old_info = self.peers[i].duplicate();
                let info = PeerInfo { channel, ..old_info };
                self.peers.set(i, info);
                proof {
                    lemma_map_update(before, i as int, info.deep_view());
                    assert(self.roster_v() =~= before.update(i as int, info.deep_view()));
                }
                Ok(())
            },
            None => Err(RoomError::NotInRoom),
        }
    }

    pub fn set_muted(&mut self, id: &PeerId, muted: bool) -> (r: Result<(), RoomError>)
        requires
            old(self).wf(),
        ensures
            final(self).wf(),
            r is Err <==> !old(self).members().contains_key(*id),
            r is Err ==> r == Err::<(), RoomError>(RoomError::NotInRoom) && *final(self) == *old(self),
            r is Ok ==> final(self).members() == old(self).members().insert(
                *id,
                PeerInfoV { muted, ..old(self).members()[*id] },
            ) && final(self).chat_v() == old(self).chat_v() && final(self).channels_v() == old(
                self,
            ).channels_v() && final(self).name_v() == old(self).name_v(),
    {
        match self.index_of(id) {
            Some(i) => {
                let ghost before = self.roster_v();
                let old_info = self.peers[i].duplicate();
                let info = PeerInfo { muted, ..old_info };
                self.peers.set(i, info);
                proof {
                    lemma_map_update(before, i as int, info.deep_view());
                    assert(self.roster_v() =~= before.update(i as int, info.deep_view()));
                }
                Ok(())
            },
            None => Err(RoomError::NotInRoom),
        }
    }

    pub fn set_deafened(&mut self, id: &PeerId, deafened: bool) -> (r: Result<(), RoomError>)
        requires
            old(self).wf(),
        ensures
            final(self).wf(),
            r is Err <==> !old(self).members().contains_key(*id),
            r is Err ==> r == Err::<(), RoomError>(RoomError::NotInRoom) && *final(self) == *old(self),
            r is Ok ==> final(self).members() == old(self).members().insert(
                *id,
                PeerInfoV { deafened, ..old(self).members()[*id] },
            ) && final(self).chat_v() == old(self).chat_v() && final(self).channels_v() == old(
                self,
            ).channels_v() && final(self).name_v() == old(self).name_v(),
    {
        match self.index_of(id) {
            Some(i) => {
                let ghost before = self.roster_v();
                let old_info = self.peers[i].duplicate();
                let info = PeerInfo { deafened, ..old_info };
                self.peers.set(i, info);
                proof {
                    lemma_map_update(before, i as int, info.deep_view());
                    assert(self.roster_v() =~= before.update(i as int, info.deep_view()));
                }
                Ok(())
            },
            None => Err(RoomError::NotInRoom),
        }
    }

    /// Validates a chat message, appends it to the history and returns the line to
    /// broadcast.
    ///
    /// The timestamp is supplied from outside: ordering must come from the
    /// coordinator's clock, because client clocks cannot be trusted.
    pub fn post_chat(&mut self, id: &PeerId, channel: ChannelId, text: &str, at: u64) -> (r: Result<ChatLine, RoomError>)
        requires
            old(self).wf(),
        ensures
            final(self).wf(),
            !old(self).members().contains_key(*id) ==> r == Err::<ChatLine, RoomError>(RoomError::NotInRoom),
            old(self).members().contains_key(*id) && channel.0 >= old(self).channels_v().len() ==> r == Err::<
                ChatLine,
                RoomError,
            >(RoomError::NoSuchChannel { index: channel.0 }),
            old(self).members().contains_key(*id) && channel.0 < old(self).channels_v().len() && trim(text@).len() == 0
                ==> r == Err::<ChatLine, RoomError>(RoomError::EmptyMessage),
            old(self).members().contains_key(*id) && channel.0 < old(self).channels_v().len() && trim(text@).len()
                > MAX_CHAT_CHARS ==> r == Err::<ChatLine, RoomError>(
                RoomError::MessageTooLong { chars: trim(text@).len() as usize },
            ),
            r is Ok <==> old(self).members().contains_key(*id) && channel.0 < old(self).channels_v().len() && 0 < trim(
                text@,
            ).len() <= MAX_CHAT_CHARS,
            r is Err ==> *final(self) == *old(self),
            r matches Ok(line) ==> {
                &&& line.deep_view() == (ChatLineV { channel, from: *id, text: trim(text@), at })
                &&& final(self).chat_v() == bounded_history(old(self).chat_v().push(line.deep_view()))
                &&& final(self).roster_v() == old(self).roster_v()
                &&& final(self).channels_v() == old(self).channels_v()
                &&& final(self).name_v() == old(self).name_v()
            },
    {
        if self.index_of(id).is_none() {
            return Err(RoomError::NotInRoom);
        }
        if channel.0 as usize >= self.channels.len() {
            return Err(RoomError::NoSuchChannel { index: channel.0 });
        }
        let chars = chars_of(text);
        let trimmed = trim_chars(chars.as_slice());
        if trimmed.len() == 0 {
            return Err(RoomError::EmptyMessage);
        }
        if trimmed.len() > MAX_CHAT_CHARS {
            return Err(RoomError::MessageTooLong { chars: trimmed.len() });
        }
        let line = ChatLine { channel, from: *id, text: string_of(trimmed.as_slice()), at };
        let ghost before = self.chat_v();
        self.chat.push_back(line.duplicate());
        assert(self.chat_v() =~= before.push(line.deep_view()));
        if self.chat.len() > CHAT_HISTORY {
            self.chat.pop_front();
            assert(self.chat_v() =~= before.push(line.deep_view()).skip(1));
        }
        Ok(line)
    }
}

} // verus!
verus! {

/// However people join, rejoin and leave, the roster never lists an identity twice.
pub proof fn lemma_roster_lists_each_identity_once(room: &Room)
    requires
        room.wf(),
    ensures
        forall|i: int, j: int|
            0 <= i < room.roster_v().len() && 0 <= j < room.roster_v().len() && i != j ==> (#[trigger] room.roster_v()[i]).id
                != (#[trigger] room.roster_v()[j]).id,
{
    room.lemma_wf();
    lemma_sorted_unique(room.roster_v());
}

/// The history keeps the newest lines, in order, and never more than `CHAT_HISTORY`.
pub proof fn lemma_history_keeps_the_newest(history: Seq<ChatLineV>, line: ChatLineV)
    ensures
        bounded_history(history.push(line)).len() <= CHAT_HISTORY,
        bounded_history(history.push(line)).last() == line,
        history.len() < CHAT_HISTORY ==> bounded_history(history.push(line)) == history.push(line),
{
}

/// Leaving undoes joining: a newcomer who leaves leaves the room's membership as it
/// was before they came.
pub proof fn lemma_leave_undoes_join(members: Map<PeerId, PeerInfoV>, id: PeerId, info: PeerInfoV)
    requires
        !members.contains_key(id),
    ensures
        members.insert(id, info).remove(id) == members,
{
    assert(members.insert(id, info).remove(id) =~= members);
}

/// A channel's voice members are exactly the people on the roster who are in it: each
/// one listed is on the roster in that channel, and everyone on the roster in that
/// channel is listed, muted, deafened or not.
pub proof fn lemma_a_channel_lists_exactly_who_is_in_it(roster: Seq<PeerInfoV>, channel: ChannelId)
    ensures
        forall|id: PeerId| #[trigger] ids_in_channel(roster, channel).contains(id) <==> exists|i: int|
            0 <= i < roster.len() && (#[trigger] roster[i]).id == id && roster[i].channel == Some(channel),
    decreases roster.len(),
{
    if roster.len() > 0 {
        let rest = roster.drop_last();
        lemma_a_channel_lists_exactly_who_is_in_it(rest, channel);
        let last = roster.len() - 1;
        assert forall|id: PeerId| #[trigger] ids_in_channel(roster, channel).contains(id) <==> exists|i: int|
            0 <= i < roster.len() && (#[trigger] roster[i]).id == id && roster[i].channel == Some(channel) by {
            let before = ids_in_channel(rest, channel);
            if ids_in_channel(roster, channel).contains(id) {
                if before.contains(id) {
                    let i = choose|i: int| 0 <= i < rest.len() && (#[trigger] rest[i]).id == id && rest[i].channel == Some(channel);
                    assert(roster[i] == rest[i]);
                } else {
                    let k = choose|k: int| 0 <= k < ids_in_channel(roster, channel).len() && ids_in_channel(roster, channel)[k] == id;
                    assert(roster.last().channel == Some(channel));
                    assert(k == before.len());
                    assert(roster[last].id == id);
                }
            }
            if exists|i: int| 0 <= i < roster.len() && (#[trigger] roster[i]).id == id && roster[i].channel == Some(channel) {
                let i = choose|i: int| 0 <= i < roster.len() && (#[trigger] roster[i]).id == id && roster[i].channel == Some(channel);
                if i < last {
                    assert(rest[i] == roster[i]);
                    assert(before.contains(id));
                    let k = choose|k: int| 0 <= k < before.len() && before[k] == id;
                    if roster.last().channel == Some(channel) {
                        assert(ids_in_channel(roster, channel)[k] == id);
                    }
                } else {
                    assert(ids_in_channel(roster, channel)[before.len() as int] == id);
                }
            }
        }
    }
}

/// Muting or deafening someone changes nobody's place in a voice channel.
pub proof fn lemma_muting_keeps_the_voice_channels(
    roster: Seq<PeerInfoV>,
    i: int,
    muted: bool,
    deafened: bool,
    channel: ChannelId,
)
    requires
        0 <= i < roster.len(),
    ensures
        ids_in_channel(roster.update(i, PeerInfoV { muted, deafened, ..roster[i] }), channel) == ids_in_channel(
            roster,
            channel,
        ),
    decreases roster.len(),
{
    let changed = roster.update(i, PeerInfoV { muted, deafened, ..roster[i] });
    if i < roster.len() - 1 {
        lemma_muting_keeps_the_voice_channels(roster.drop_last(), i, muted, deafened, channel);
        assert(changed.drop_last() =~= roster.drop_last().update(i, PeerInfoV { muted, deafened, ..roster[i] }));
    } else {
        assert(changed.drop_last() =~= roster.drop_last());
    }
}

/// A name clashes only with someone else: whatever record the joining identity itself
/// already has (a reconnect), its display name is the one it would get without it.
pub proof fn lemma_your_own_record_never_clashes(
    members: Map<PeerId, PeerInfoV>,
    id: PeerId,
    requested: Seq<char>,
    own: PeerInfoV,
)
    ensures
        display_name(members.insert(id, own), id, requested) == display_name(members.remove(id), id, requested),
{
    let name = cleaned_name(requested);
    let with = members.insert(id, own);
    let without = members.remove(id);
    if name_taken(with, id, name) {
        let k = choose|k: PeerId| #[trigger] with.contains_key(k) && k != id && same_ignoring_ascii_case(with[k].name, name);
        assert(without.contains_key(k) && without[k] == with[k]);
    }
    if name_taken(without, id, name) {
        let k = choose|k: PeerId| #[trigger] without.contains_key(k) && k != id && same_ignoring_ascii_case(without[k].name, name);
        assert(with.contains_key(k) && with[k] == without[k]);
    }
}

/// A name nobody else goes by is kept exactly as cleaned, with no suffix, even when the
/// joining identity already has it.
pub proof fn lemma_a_free_name_is_kept(members: Map<PeerId, PeerInfoV>, id: PeerId, requested: Seq<char>)
    requires
        cleaned_name(requested).len() > 0,
        forall|k: PeerId|
            #[trigger] members.contains_key(k) && k != id ==> !same_ignoring_ascii_case(
                members[k].name,
                cleaned_name(requested),
            ),
    ensures
        display_name(members, id, requested) == Some(cleaned_name(requested)),
{
}

} // verus!
