//! Per-peer jitter buffer.
//!
//! Network packets arrive at irregular intervals, out of order and incomplete; the
//! sound card wants one frame every 20 ms. This buffer banks a small amount of
//! latency and smooths the stream out, telling three situations apart:
//!
//! * **Packet present** → play it.
//! * **Packet lost** (later ones arrived, this one never did) → ask the codec for
//!   concealment.
//! * **Nobody is talking** → real silence, which must not be counted as loss.
use vstd::prelude::*;

verus! {

/// A frame coming out of the buffer.
#[derive(Debug, Clone, PartialEq, Eq)]
pub enum Frame {
    /// An Opus packet to play.
    Packet(Vec<u8>),
    /// The packet was lost; the codec should conceal it.
    Lost,
    /// The other side is not talking.
    Silence,
}

/// What a frame says, with the packet as bytes.
pub enum FrameV {
    Packet(Seq<u8>),
    Lost,
    Silence,
}

impl View for Frame {
    type V = FrameV;

    open spec fn view(&self) -> FrameV {
        match self {
            Frame::Packet(p) => FrameV::Packet(p@),
            Frame::Lost => FrameV::Lost,
            Frame::Silence => FrameV::Silence,
        }
    }
}

/// Consecutive empty frames tolerated before the stream counts as stopped.
pub const STARVE_LIMIT: usize = 5;

/// Buffered packets, by sequence number, strictly ascending.
pub open spec fn seq_sorted(s: Seq<(u32, Seq<u8>)>) -> bool {
    forall|i: int, j: int| 0 <= i < j < s.len() ==> (#[trigger] s[i]).0 < (#[trigger] s[j]).0
}

/// Whether a sequence number is buffered.
pub open spec fn holds(s: Seq<(u32, Seq<u8>)>, seq: u32) -> bool {
    exists|i: int| 0 <= i < s.len() && (#[trigger] s[i]).0 == seq
}

/// How many buffered sequence numbers are below `seq`.
pub open spec fn count_below(s: Seq<(u32, Seq<u8>)>, seq: u32) -> int
    decreases s.len(),
{
    if s.len() == 0 {
        0
    } else if s.last().0 < seq {
        count_below(s.drop_last(), seq) + 1
    } else {
        count_below(s.drop_last(), seq)
    }
}

/// A packet filed into its place in the ascending order.
pub open spec fn filed(s: Seq<(u32, Seq<u8>)>, seq: u32, payload: Seq<u8>) -> Seq<(u32, Seq<u8>)> {
    s.insert(count_below(s, seq), (seq, payload))
}

proof fn lemma_count_below(s: Seq<(u32, Seq<u8>)>, seq: u32, p: int)
    requires
        seq_sorted(s),
        0 <= p <= s.len(),
        forall|i: int| 0 <= i < p ==> (#[trigger] s[i]).0 < seq,
        forall|i: int| p <= i < s.len() ==> (#[trigger] s[i]).0 >= seq,
    ensures
        count_below(s, seq) == p,
    decreases s.len(),
{
    if s.len() > 0 {
        let t = s.drop_last();
        if p == s.len() {
            lemma_count_below(t, seq, p - 1);
        } else {
            lemma_count_below(t, seq, p);
        }
    }
}

/// The buffer's whole state, as the contracts speak of it.
pub struct JitterV {
    pub target: usize,
    pub max_depth: usize,
    pub next_seq: Option<u32>,
    pub packets: Seq<(u32, Seq<u8>)>,
    pub starved: usize,
}

pub struct JitterBuffer {
    /// How many frames to bank before playback starts.
    target: usize,
    /// Past this depth the latency becomes unacceptable and the buffer fast-forwards.
    max_depth: usize,
    /// The frame expected next. `None` means the stream is paused.
    next_seq: Option<u32>,
    /// Buffered packets in ascending sequence order.
    packets: Vec<(u32, Vec<u8>)>,
    /// How many empty pops in a row — used to decide the stream has stopped.
    starved: usize,
}

/// What `push` does: refuse a packet whose moment has passed or that is already here;
/// otherwise file it, and when the backlog is over the limit drop the oldest and move
/// the stream past it.
pub open spec fn push_model(v: JitterV, seq: u32, payload: Seq<u8>) -> (bool, JitterV) {
    let late = match v.next_seq {
        Some(next) => seq < next,
        None => false,
    };
    if late || holds(v.packets, seq) {
        (false, v)
    } else {
        let t = filed(v.packets, seq, payload);
        if t.len() > v.max_depth {
            (true, JitterV { packets: t.drop_first(), next_seq: Some((t[0].0 + 1) as u32), ..v })
        } else {
            (true, JitterV { packets: t, ..v })
        }
    }
}

/// Whether `pop` can run without its sequence number running past `u32::MAX`.
pub open spec fn pop_in_range(v: JitterV) -> bool {
    match v.next_seq {
        Some(next) => next < u32::MAX,
        None => v.packets.len() >= v.target ==> v.packets[0].0 < u32::MAX,
    }
}

/// What `pop` does.
pub open spec fn pop_model(v: JitterV) -> (FrameV, JitterV) {
    match v.next_seq {
        None => if v.packets.len() < v.target {
            (FrameV::Silence, v)
        } else {
            // The stream restarts at the oldest packet banked.
            let first = v.packets[0];
            (
                FrameV::Packet(first.1),
                JitterV {
                    next_seq: Some((first.0 + 1) as u32),
                    packets: v.packets.drop_first(),
                    starved: 0,
                    ..v
                },
            )
        },
        Some(next) => if holds(v.packets, next) {
            let i = choose|i: int| 0 <= i < v.packets.len() && (#[trigger] v.packets[i]).0 == next;
            (
                FrameV::Packet(v.packets[i].1),
                JitterV {
                    next_seq: Some((next + 1) as u32),
                    packets: v.packets.remove(i),
                    starved: 0,
                    ..v
                },
            )
        } else if v.packets.len() > 0 {
            // Later packets are here, so this one really was lost.
            (FrameV::Lost, JitterV { next_seq: Some((next + 1) as u32), starved: 0, ..v })
        } else if v.starved + 1 >= STARVE_LIMIT {
            // Long enough empty: pause, and resynchronise when speech resumes.
            (FrameV::Silence, JitterV { next_seq: None, starved: 0, ..v })
        } else {
            (FrameV::Silence, JitterV { next_seq: Some((next + 1) as u32), starved: (v.starved + 1) as usize, ..v })
        },
    }
}

impl View for JitterBuffer {
    type V = JitterV;

    closed spec fn view(&self) -> JitterV {
        JitterV {
            target: self.target,
            max_depth: self.max_depth,
            next_seq: self.next_seq,
            packets: Seq::new(self.packets@.len(), |i: int| (self.packets@[i].0, self.packets@[i].1@)),
            starved: self.starved,
        }
    }
}

impl JitterBuffer {
    /// The buffer's invariant: packets in ascending order, never more than the
    /// maximum depth, a maximum of four times a positive target, and a starvation
    /// count below its limit.
    pub open spec fn wf(&self) -> bool {
        let v = self@;
        &&& seq_sorted(v.packets)
        &&& 1 <= v.target
        &&& v.max_depth == v.target * 4
        &&& v.packets.len() <= v.max_depth
        &&& v.starved < STARVE_LIMIT
    }

    /// `target` is the latency goal in frames (at 20 ms per frame, 3 ≈ 60 ms).
    pub fn new(target: usize) -> (r: Self)
        requires
            target <= usize::MAX / 4,
        ensures
            r.wf(),
            r@.target == if target == 0 { 1 } else { target },
            r@.next_seq is None,
            r@.packets.len() == 0,
            r@.starved == 0,
    {
        let target = if target == 0 { 1 } else { target };
        let r = Self { target, max_depth: target * 4, next_seq: None, packets: Vec::new(), starved: 0 };
        assert(r@.packets =~= Seq::<(u32, Seq<u8>)>::empty());
        r
    }

    /// How many packets are banked.
    pub fn depth(&self) -> (r: usize)
        ensures
            r == self@.packets.len(),
    {
        self.packets.len()
    }

    /// Files an incoming packet. Returns `false` for packets that are too late or
    /// duplicated.
    pub fn push(&mut self, seq: u32, payload: Vec<u8>) -> (r: bool)
        requires
            old(self).wf(),
        ensures
            final(self).wf(),
            (r, final(self)@) == push_model(old(self)@, seq, payload@),
    {
        let ghost v = self@;
        if let Some(next) = self.next_seq {
            if seq < next {
                // This packet missed its train: its moment has passed.
                return false;
            }
        }
        let mut pos: usize = 0;
        while pos < self.packets.len() && self.packets[pos].0 < seq
            invariant
                pos <= self.packets@.len(),
                self@ == v,
                forall|i: int| 0 <= i < pos ==> (#[trigger] self@.packets[i]).0 < seq,
            decreases self.packets@.len() - pos,
        {
            pos = pos + 1;
        }
        proof {
            assert forall|i: int| pos <= i < self@.packets.len() implies (#[trigger] self@.packets[i]).0 >= seq by {
                if i > pos {
                    assert(self@.packets[pos as int].0 < self@.packets[i].0);
                }
            }
        }
        if pos < self.packets.len() && self.packets[pos].0 == seq {
            assert(holds(v.packets, seq));
            return false;
        }
        proof {
            assert forall|i: int| 0 <= i < v.packets.len() implies (#[trigger] v.packets[i]).0 != seq by {
                if i > pos {
                    assert(v.packets[pos as int].0 < v.packets[i].0);
                }
            }
            lemma_count_below(v.packets, seq, pos as int);
        }
        let ghost p = payload@;
        self.packets.insert(pos, (seq, payload));
        assert(self@.packets =~= filed(v.packets, seq, p));
        // Excess backlog means excess latency. Drop the oldest and fast-forward. One
        // packet came in, so at most one has to go.
        if self.packets.len() > self.max_depth {
            let ghost t = self@.packets;
            let oldest = self.packets.remove(0);
            assert(t[0].0 < t[t.len() - 1].0);
            self.next_seq = Some(oldest.0 + 1);
            assert(self@.packets =~= t.drop_first());
        }
        proof {
            let t = filed(v.packets, seq, p);
            assert(seq_sorted(self@.packets)) by {
                if t.len() > v.max_depth {
                    assert forall|i: int, j: int| 0 <= i < j < self@.packets.len() implies (#[trigger] self@.packets[i]).0 < (#[trigger] self@.packets[j]).0 by {
                        assert(t[i + 1].0 < t[j + 1].0);
                    }
                }
            }
        }
        true
    }

    /// Whether `pop` can run now without its sequence number passing `u32::MAX`.
    pub fn can_pop(&self) -> (r: bool)
        requires
            self.wf(),
        ensures
            r == pop_in_range(self@),
    {
        match self.next_seq {
            Some(next) => next < u32::MAX,
            None => self.packets.len() < self.target || self.packets[0].0 < u32::MAX,
        }
    }

    /// The next frame to hand to the sound card.
    pub fn pop(&mut self) -> (r: Frame)
        requires
            old(self).wf(),
            pop_in_range(old(self)@),
        ensures
            final(self).wf(),
            (r@, final(self)@) == pop_model(old(self)@),
    {
        let ghost v = self@;
        let next = match self.next_seq {
            Some(next) => next,
            None => {
                // The stream is paused: enough packets must bank up before it restarts.
                if self.packets.len() < self.target {
                    return Frame::Silence;
                }
                let first = self.packets.remove(0);
                self.next_seq = Some(first.0 + 1);
                self.starved = 0;
                assert(self@.packets =~= v.packets.drop_first());
                assert(seq_sorted(self@.packets)) by {
                    assert forall|i: int, j: int| 0 <= i < j < self@.packets.len() implies (#[trigger] self@.packets[i]).0 < (#[trigger] self@.packets[j]).0 by {
                        assert(v.packets[i + 1].0 < v.packets[j + 1].0);
                    }
                }
                return Frame::Packet(first.1);
            },
        };
        let mut i: usize = 0;
        while i < self.packets.len() && self.packets[i].0 != next
            invariant
                i <= self.packets@.len(),
                self@ == v,
                forall|j: int| 0 <= j < i ==> (#[trigger] self@.packets[j]).0 != next,
            decreases self.packets@.len() - i,
        {
            i = i + 1;
        }
        if i < self.packets.len() {
            proof {
                assert(v.packets[i as int].0 == next);
                assert(holds(v.packets, next));
                let k = choose|k: int| 0 <= k < v.packets.len() && (#[trigger] v.packets[k]).0 == next;
                if k < i {
                    assert(v.packets[k].0 < v.packets[i as int].0);
                } else if k > i {
                    assert(v.packets[i as int].0 < v.packets[k].0);
                }
                assert(k == i);
            }
            let found = self.packets.remove(i);
            self.next_seq = Some(next + 1);
            self.starved = 0;
            assert(self@.packets =~= v.packets.remove(i as int));
            assert(seq_sorted(self@.packets)) by {
                assert forall|a: int, b: int| 0 <= a < b < self@.packets.len() implies (#[trigger] self@.packets[a]).0 < (#[trigger] self@.packets[b]).0 by {
                    let sa = if a < i { a } else { a + 1 };
                    let sb = if b < i { b } else { b + 1 };
                    assert(v.packets[sa].0 < v.packets[sb].0);
                }
            }
            return Frame::Packet(found.1);
        }
        assert(!holds(v.packets, next));

        // The expected packet is missing. If later ones are here, it really was lost.
        if self.packets.len() > 0 {
            self.next_seq = Some(next + 1);
            self.starved = 0;
            return Frame::Lost;
        }

        // The buffer is completely empty: either the network died or they went quiet.
        self.starved = self.starved + 1;
        if self.starved >= STARVE_LIMIT {
            // Pause the stream; when speech resumes we resynchronise no matter where
            // the sequence number picks up.
            self.next_seq = None;
            self.starved = 0;
        } else {
            self.next_seq = Some(next + 1);
        }
        Frame::Silence
    }
}

} // verus!
verus! {

/// The backlog never passes four times the target, so latency cannot grow without
/// bound.
pub proof fn lemma_backlog_is_bounded(buffer: &JitterBuffer)
    requires
        buffer.wf(),
    ensures
        buffer@.packets.len() <= 4 * buffer@.target,
{
}

/// A frame is reported lost only when the stream is running, the expected packet is
/// missing and later ones are already here: a quiet peer is silence, never loss.
pub proof fn lemma_loss_needs_later_packets(v: JitterV)
    requires
        pop_model(v).0 is Lost,
    ensures
        v.next_seq is Some,
        !holds(v.packets, v.next_seq->0),
        v.packets.len() > 0,
{
}

/// An empty buffer never reports loss.
pub proof fn lemma_empty_buffer_is_silent(v: JitterV)
    requires
        v.packets.len() == 0,
        v.target >= 1,
    ensures
        pop_model(v).0 is Silence,
{
}

/// A packet that is refused (late, or already here) changes nothing.
pub proof fn lemma_refused_packet_changes_nothing(v: JitterV, seq: u32, payload: Seq<u8>)
    requires
        !push_model(v, seq, payload).0,
    ensures
        push_model(v, seq, payload).1 == v,
{
}

/// A packet whose moment has passed, or a second copy of one, is refused.
pub proof fn lemma_late_or_duplicate_is_refused(v: JitterV, seq: u32, payload: Seq<u8>)
    requires
        (v.next_seq matches Some(next) && seq < next) || holds(v.packets, seq),
    ensures
        !push_model(v, seq, payload).0,
{
}

/// While the stream runs, every pop moves it on by exactly one frame (or pauses it): a
/// frame reported lost is one frame, so each missing packet is concealed once and the
/// packet after it still plays in its own slot. A lost frame keeps every banked packet,
/// and a packet played from a running stream is the one numbered for that slot.
pub proof fn lemma_each_pop_is_one_frame(v: JitterV)
    requires
        pop_in_range(v),
        v.next_seq is Some,
    ensures
        pop_model(v).1.next_seq matches Some(m) ==> m == v.next_seq->0 + 1,
        pop_model(v).0 is Lost ==> pop_model(v).1.next_seq == Some((v.next_seq->0 + 1) as u32)
            && pop_model(v).1.packets == v.packets,
        pop_model(v).0 matches FrameV::Packet(p) ==> exists|i: int|
            0 <= i < v.packets.len() && #[trigger] v.packets[i] == (v.next_seq->0, p),
{
    let n = v.next_seq->0;
    if holds(v.packets, n) {
        let i = choose|i: int| 0 <= i < v.packets.len() && (#[trigger] v.packets[i]).0 == n;
        assert(v.packets[i] == (n, v.packets[i].1));
    }
}

} // verus!
