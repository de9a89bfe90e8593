//! The voice mesh's decisions: whom to dial, whom to drop, what goes into a voice
//! datagram and which datagrams are played.
//!
//! Two subtleties:
//!
//! * Duplicate connections. If two peers dial each other at the same moment, two
//!   connections form and the audio is heard twice. The rule: the lower identity dials,
//!   the higher one waits. Identities are public keys, so this division of labour needs
//!   no negotiation.
//! * Channel filter. A datagram whose channel does not match ours is not played. This
//!   is what stops audio leaking in from the wrong channel during the brief gap between
//!   a channel switch and the roster update.
use vstd::prelude::*;

use crate::audio::Incoming;
use crate::proto::{lemma_before_irreflexive, lemma_before_total, lemma_before_transitive};
use crate::proto::{ChannelId, PeerId, VoiceHeader};

verus! {

/// The largest Opus payload a voice datagram carries.
pub const MAX_VOICE_PAYLOAD: usize = 1500;

/// The current state of the voice connections; it feeds the quality indicator.
///
/// What a user wants to know is whether their voice gets through cleanly, and that has
/// two parts: whether it goes direct or detours through a relay, and latency.
#[derive(Debug, Clone, PartialEq, Eq)]
pub struct LinkStatus {
    /// Peers reached over a direct connection.
    pub direct: usize,
    /// Peers whose audio flows through a relay (hole punching did not succeed).
    pub relayed: usize,
    /// The worst round-trip time across the connections, in whole milliseconds.
    pub worst_rtt: Option<u128>,
}

impl Default for LinkStatus {
    fn default() -> (r: LinkStatus)
        ensures
            r.direct == 0 && r.relayed == 0 && r.worst_rtt is None,
    {
        LinkStatus { direct: 0, relayed: 0, worst_rtt: None }
    }
}

impl LinkStatus {
    /// Everyone a voice connection reaches, one way or the other.
    pub fn peers(&self) -> (r: usize)
        requires
            self.direct + self.relayed <= usize::MAX,
        ensures
            r == self.direct + self.relayed,
    {
        self.direct + self.relayed
    }
}

/// The path a voice connection's traffic takes, as the endpoint reports it: through a
/// relay or direct, and its round trip in whole milliseconds.
#[derive(Debug, Clone, Copy, PartialEq, Eq, Structural)]
pub struct PathReading {
    pub relay: bool,
    pub rtt_ms: u128,
}

/// The link summed up from each connection's selected path (`None` for a connection
/// with no path selected yet, which counts for nothing).
pub open spec fn link_spec(paths: Seq<Option<PathReading>>) -> LinkStatus
    decreases paths.len(),
{
    if paths.len() == 0 {
        LinkStatus { direct: 0, relayed: 0, worst_rtt: None }
    } else {
        let rest = link_spec(paths.drop_last());
        match paths.last() {
            None => rest,
            Some(p) => LinkStatus {
                direct: if p.relay { rest.direct } else { (rest.direct + 1) as usize },
                relayed: if p.relay { (rest.relayed + 1) as usize } else { rest.relayed },
                worst_rtt: match rest.worst_rtt {
                    Some(w) => Some(if p.rtt_ms > w { p.rtt_ms } else { w }),
                    None => Some(p.rtt_ms),
                },
            },
        }
    }
}

proof fn lemma_link_counts(paths: Seq<Option<PathReading>>)
    ensures
        link_spec(paths).direct + link_spec(paths).relayed <= paths.len(),
    decreases paths.len(),
{
    if paths.len() > 0 {
        lemma_link_counts(paths.drop_last());
    }
}

/// Summarises the quality of the voice connections: how many are direct, how many go
/// through a relay, and the worst round trip among them.
pub fn link_status_of(paths: &Vec<Option<PathReading>>) -> (r: LinkStatus)
    ensures
        r == link_spec(paths@),
{
    let mut status = LinkStatus { direct: 0, relayed: 0, worst_rtt: None };
    let mut i: usize = 0;
    while i < paths.len()
        invariant
            i <= paths@.len(),
            status == link_spec(paths@.take(i as int)),
        decreases paths@.len() - i,
    {
        assert(paths@.take(i + 1).drop_last() =~= paths@.take(i as int));
        proof {
            lemma_link_counts(paths@.take(i as int));
        }
        match paths[i] {
            None => {},
            Some(p) => {
                if p.relay {
                    status.relayed = status.relayed + 1;
                } else {
                    status.direct = status.direct + 1;
                }
                status.worst_rtt = match status.worst_rtt {
                    Some(w) => Some(if p.rtt_ms > w { p.rtt_ms } else { w }),
                    None => Some(p.rtt_ms),
                };
            },
        }
        i = i + 1;
    }
    assert(paths@.take(i as int) =~= paths@);
    status
}

/// Whether the mesh should hold a connection to `peer`: we are in a channel, the roster
/// puts `peer` in it with us, and `peer` is not ourselves.
pub open spec fn wanted(me: PeerId, channel: Option<ChannelId>, members: Seq<PeerId>, peer: PeerId) -> bool {
    channel is Some && members.contains(peer) && peer != me
}

/// Whether `me` is the side that dials `peer`: the lower identity dials.
pub open spec fn dials(me: PeerId, peer: PeerId) -> bool {
    me.before(peer)
}

/// What the mesh has to do after a roster update.
pub struct MeshPlan {
    /// Connections to close: peers no longer in our channel.
    pub close: Vec<PeerId>,
    /// Peers to dial: newly in our channel, not yet connected, and ours to dial.
    pub dial: Vec<PeerId>,
}

fn holds(list: &Vec<PeerId>, peer: &PeerId) -> (r: bool)
    ensures
        r == list@.contains(*peer),
{
    let mut i: usize = 0;
    while i < list.len()
        invariant
            i <= list@.len(),
            forall|j: int| 0 <= j < i ==> list@[j] != *peer,
        decreases list@.len() - i,
    {
        if list[i].same(peer) {
            return true;
        }
        i = i + 1;
    }
    false
}

fn holds_slice(list: &[PeerId], peer: &PeerId) -> (r: bool)
    ensures
        r == list@.contains(*peer),
{
    let mut i: usize = 0;
    while i < list.len()
        invariant
            i <= list@.len(),
            forall|j: int| 0 <= j < i ==> list@[j] != *peer,
        decreases list@.len() - i,
    {
        if list[i].same(peer) {
            return true;
        }
        i = i + 1;
    }
    false
}

/// Updates the mesh from the coordinator's roster: connects to the peers in our
/// channel and closes connections to those who left it. `members` are the identities
/// the roster puts in our channel; `existing` are the connections held now.
pub fn plan_membership(me: &PeerId, channel: Option<ChannelId>, members: &[PeerId], existing: &[PeerId]) -> (r: MeshPlan)
    ensures
        forall|p: PeerId| #[trigger] r.close@.contains(p) <==> existing@.contains(p) && !wanted(*me, channel, members@, p),
        forall|p: PeerId| #[trigger] r.dial@.contains(p) <==> wanted(*me, channel, members@, p) && !existing@.contains(p) && dials(*me, p),
        r.close@.no_duplicates(),
        r.dial@.no_duplicates(),
{
    let in_channel = channel.is_some();
    let mut close: Vec<PeerId> = Vec::new();
    let mut i: usize = 0;
    while i < existing.len()
        invariant
            i <= existing@.len(),
            in_channel == channel is Some,
            close@.no_duplicates(),
            forall|p: PeerId| #[trigger] close@.contains(p) <==> (exists|k: int| 0 <= k < i && existing@[k] == p)
                && !wanted(*me, channel, members@, p),
        decreases existing@.len() - i,
    {
        let peer = existing[i];
        let keep = in_channel && holds_slice(members, &peer) && !peer.same(me);
        let ghost before = close@;
        if !keep && !holds(&close, &peer) {
            close.push(peer);
            proof {
                assert forall|p: PeerId| close@.contains(p) <==> before.contains(p) || p == peer by {
                    if close@.contains(p) && p != peer {
                        let k = choose|k: int| 0 <= k < close@.len() && close@[k] == p;
                        assert(before[k] == p);
                    }
                    if before.contains(p) {
                        let k = choose|k: int| 0 <= k < before.len() && before[k] == p;
                        assert(close@[k] == p);
                    }
                    assert(close@[before.len() as int] == peer);
                }
            }
        }
        proof {
            assert(keep == wanted(*me, channel, members@, peer));
            assert forall|p: PeerId| #[trigger] close@.contains(p) <==> (exists|k: int| 0 <= k < i + 1 && existing@[k] == p)
                && !wanted(*me, channel, members@, p) by {
                let in_prefix = exists|k: int| 0 <= k < i && existing@[k] == p;
                let in_next = exists|k: int| 0 <= k < i + 1 && existing@[k] == p;
                if p == peer {
                    assert(existing@[i as int] == p);
                }
                if in_next && p != peer {
                    let k = choose|k: int| 0 <= k < i + 1 && existing@[k] == p;
                    assert(k < i && existing@[k] == p);
                }
                if in_prefix {
                    let k = choose|k: int| 0 <= k < i && existing@[k] == p;
                    assert(0 <= k < i + 1 && existing@[k] == p);
                }
                assert(in_next <==> in_prefix || p == peer);
                assert(before.contains(p) <==> in_prefix && !wanted(*me, channel, members@, p));
            }
        }
        i = i + 1;
    }
    let mut dial: Vec<PeerId> = Vec::new();
    let mut j: usize = 0;
    while j < members.len()
        invariant
            j <= members@.len(),
            in_channel == channel is Some,
            dial@.no_duplicates(),
            forall|p: PeerId| #[trigger] dial@.contains(p) <==> (exists|k: int| 0 <= k < j && members@[k] == p)
                && in_channel && p != *me && !existing@.contains(p) && dials(*me, p),
        decreases members@.len() - j,
    {
        let peer = members[j];
        let ours = in_channel && !peer.same(me) && !holds_slice(existing, &peer) && me.is_before(&peer);
        let ghost before = dial@;
        if ours && !holds(&dial, &peer) {
            dial.push(peer);
            proof {
                assert forall|p: PeerId| dial@.contains(p) <==> before.contains(p) || p == peer by {
                    if dial@.contains(p) && p != peer {
                        let k = choose|k: int| 0 <= k < dial@.len() && dial@[k] == p;
                        assert(before[k] == p);
                    }
                    if before.contains(p) {
                        let k = choose|k: int| 0 <= k < before.len() && before[k] == p;
                        assert(dial@[k] == p);
                    }
                    assert(dial@[before.len() as int] == peer);
                }
            }
        }
        proof {
            assert forall|p: PeerId| #[trigger] dial@.contains(p) <==> (exists|k: int| 0 <= k < j + 1 && members@[k] == p)
                && in_channel && p != *me && !existing@.contains(p) && dials(*me, p) by {
                let in_prefix = exists|k: int| 0 <= k < j && members@[k] == p;
                let in_next = exists|k: int| 0 <= k < j + 1 && members@[k] == p;
                if p == peer {
                    assert(members@[j as int] == p);
                }
                if in_next && p != peer {
                    let k = choose|k: int| 0 <= k < j + 1 && members@[k] == p;
                    assert(k < j && members@[k] == p);
                }
                if in_prefix {
                    let k = choose|k: int| 0 <= k < j && members@[k] == p;
                    assert(0 <= k < j + 1 && members@[k] == p);
                }
                assert(in_next <==> in_prefix || p == peer);
                assert(before.contains(p) <==> in_prefix && in_channel && p != *me && !existing@.contains(p) && dials(*me, p));
            }
        }
        j = j + 1;
    }
    MeshPlan { close, dial }
}

/// Of two different peers in a channel, exactly one dials the other, so a pair never
/// ends up with two connections, nor with none.
pub proof fn lemma_exactly_one_side_dials(a: PeerId, b: PeerId)
    requires
        a != b,
    ensures
        dials(a, b) != dials(b, a),
{
    lemma_before_total(a, b);
    if dials(a, b) && dials(b, a) {
        lemma_before_transitive(a, b, a);
        lemma_before_irreflexive(a);
    }
}

/// The datagram that carries one of our frames: the header, then the payload. Nothing
/// is sent outside a voice channel, nor a payload over `MAX_VOICE_PAYLOAD` bytes.
pub fn voice_datagram(channel: Option<ChannelId>, seq: u32, payload: &[u8]) -> (r: Option<Vec<u8>>)
    ensures
        match channel {
            None => r is None,
            Some(c) => if payload@.len() <= MAX_VOICE_PAYLOAD {
                r matches Some(d) && d@ == (VoiceHeader { seq, channel: c }).bytes() + payload@
            } else {
                r is None
            },
        },
{
    let c = match channel {
        Some(c) => c,
        None => return None,
    };
    if payload.len() > MAX_VOICE_PAYLOAD {
        return None;
    }
    let header = VoiceHeader { seq, channel: c };
    let mut datagram: Vec<u8> = Vec::new();
    let mut k: usize = 0;
    while k < VoiceHeader::SIZE
        invariant
            k <= 5,
            datagram@.len() == k,
        decreases 5 - k,
    {
        datagram.push(0);
        k = k + 1;
    }
    header.write_into(datagram.as_mut_slice());
    let ghost head = datagram@;
    let mut i: usize = 0;
    while i < payload.len()
        invariant
            i <= payload@.len(),
            head == header.bytes(),
            datagram@ == head + payload@.take(i as int),
        decreases payload@.len() - i,
    {
        datagram.push(payload[i]);
        i = i + 1;
        assert(head + payload@.take(i as int) =~= (head + payload@.take(i - 1)).push(payload@[i - 1]));
    }
    assert(payload@.take(i as int) =~= payload@);
    Some(datagram)
}

fn copy_bytes(bytes: &[u8]) -> (r: Vec<u8>)
    ensures
        r@ == bytes@,
{
    let mut out: Vec<u8> = Vec::new();
    let mut i: usize = 0;
    while i < bytes.len()
        invariant
            i <= bytes@.len(),
            out@ == bytes@.take(i as int),
        decreases bytes@.len() - i,
    {
        out.push(bytes[i]);
        i = i + 1;
        assert(out@ =~= bytes@.take(i as int));
    }
    assert(bytes@.take(i as int) =~= bytes@);
    out
}

/// What a listener in `ours` hears in a datagram: its number and payload, or nothing if
/// the datagram is malformed or spoken into another channel.
pub open spec fn heard(ours: Option<ChannelId>, datagram: Seq<u8>) -> Option<(u32, Seq<u8>)> {
    match VoiceHeader::parse_spec(datagram) {
        None => None,
        Some((header, payload)) => if ours == Some(header.channel) {
            Some((header.seq, payload))
        } else {
            None
        },
    }
}

/// What the read loop makes of a datagram from `from`: a frame for the audio engine,
/// or nothing if the datagram is malformed or spoken into another channel than ours.
pub fn accept_datagram(ours: Option<ChannelId>, from: PeerId, datagram: &[u8]) -> (r: Option<Incoming>)
    ensures
        match heard(ours, datagram@) {
            None => r is None,
            Some((seq, payload)) => r matches Some(frame) && frame.from == from && frame.seq == seq
                && frame.payload@ == payload,
        },
{
    let (header, payload) = match VoiceHeader::parse(datagram) {
        Some(parsed) => parsed,
        None => return None,
    };
    let here = match ours {
        Some(c) => c,
        None => return None,
    };
    if here.0 != header.channel.0 {
        return None;
    }
    Some(Incoming { from, seq: header.seq, payload: copy_bytes(payload) })
}

/// Voice stays in its channel: a datagram built for a channel is heard, with its number
/// and payload intact, by a listener in that channel, and by no listener anywhere else.
pub proof fn lemma_voice_stays_in_its_channel(sent: ChannelId, ours: Option<ChannelId>, seq: u32, payload: Seq<u8>)
    requires
        payload.len() > 0,
    ensures
        heard(ours, (VoiceHeader { seq, channel: sent }).bytes() + payload) == (if ours == Some(sent) {
            Some((seq, payload))
        } else {
            None
        }),
{
    crate::proto::lemma_voice_header_round_trip(VoiceHeader { seq, channel: sent }, payload);
}

/// The worst round trip is the largest of the connections that have a path: there is
/// one exactly when some connection has a path, it is the round trip of one of them,
/// and none of them is slower.
pub proof fn lemma_worst_rtt_is_the_slowest(paths: Seq<Option<PathReading>>)
    ensures
        link_spec(paths).worst_rtt is None <==> forall|i: int| 0 <= i < paths.len() ==> (#[trigger] paths[i]) is None,
        link_spec(paths).worst_rtt matches Some(m) ==> exists|i: int|
            0 <= i < paths.len() && (#[trigger] paths[i]) is Some && paths[i]->0.rtt_ms == m,
        link_spec(paths).worst_rtt matches Some(m) ==> forall|i: int|
            0 <= i < paths.len() && (#[trigger] paths[i]) is Some ==> paths[i]->0.rtt_ms <= m,
    decreases paths.len(),
{
    if paths.len() > 0 {
        let rest = paths.drop_last();
        lemma_worst_rtt_is_the_slowest(rest);
        let last = paths.len() - 1;
        assert forall|i: int| 0 <= i < last implies paths[i] == #[trigger] rest[i] by {}
        match link_spec(rest).worst_rtt {
            Some(w) => {
                let j = choose|j: int| 0 <= j < rest.len() && (#[trigger] rest[j]) is Some && rest[j]->0.rtt_ms == w;
                assert(paths[j] == rest[j]);
                if let Some(p) = paths[last] {
                    if p.rtt_ms <= w {
                        assert(paths[j] is Some && paths[j]->0.rtt_ms == w);
                    }
                }
            },
            None => {
                if paths[last] is None {
                    assert forall|i: int| 0 <= i < paths.len() implies (#[trigger] paths[i]) is None by {
                        if i < last {
                            assert(rest[i] is None);
                        }
                    }
                }
            },
        }
        if link_spec(paths).worst_rtt is Some {
            let m = link_spec(paths).worst_rtt->0;
            assert forall|i: int| 0 <= i < paths.len() && (#[trigger] paths[i]) is Some implies paths[i]->0.rtt_ms <= m by {
                if i < last {
                    assert(rest[i] is Some);
                }
            }
        }
        if link_spec(paths).worst_rtt is None {
            assert(paths[last] is None);
        }
        if forall|i: int| 0 <= i < paths.len() ==> (#[trigger] paths[i]) is None {
            assert forall|i: int| 0 <= i < rest.len() implies (#[trigger] rest[i]) is None by {
                assert(paths[i] is None);
            }
        }
    }
}

} // verus!
