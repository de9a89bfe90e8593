//! The voice plane's decisions: jitter buffering, the microphone test, the speaker
//! bus and device choice. The sample arithmetic itself lives outside the library.
use vstd::prelude::*;

use crate::proto::PeerId;

pub mod blip;
pub mod device;
pub mod jitter;

verus! {

/// Opus's native rate; the whole chain is built on it.
pub const SAMPLE_RATE: u32 = 48_000;

/// A 20 ms frame: the usual balance between latency and per-packet overhead.
pub const FRAME: usize = 960;

/// The ceiling on the microphone test's recording: three seconds of samples.
pub const TEST_SAMPLES: usize = 144_000;

/// What the microphone test is doing.
///
/// Recording and playing back are separate states rather than one "test" flag because
/// the whole point is that the speaker stays quiet while the microphone is open: on a
/// laptop, anything else closes an acoustic loop between the two.
#[derive(Debug, Clone, Copy, PartialEq, Eq, Structural)]
pub enum MicTest {
    Off,
    /// The microphone is being recorded and nothing is going to the speaker.
    Recording,
    /// What was recorded is playing back and the microphone is ignored.
    Playing,
    /// The microphone goes straight to the speaker. Safe on headphones and nowhere
    /// else, which is why it is not the default.
    Monitoring,
}

impl Default for MicTest {
    fn default() -> (r: MicTest)
        ensures
            r == MicTest::Off,
    {
        MicTest::Off
    }
}

impl MicTest {
    /// The state as the number the audio threads share.
    pub open spec fn bits_spec(self) -> u8 {
        match self {
            MicTest::Off => 0,
            MicTest::Recording => 1,
            MicTest::Playing => 2,
            MicTest::Monitoring => 3,
        }
    }

    pub fn bits(self) -> (r: u8)
        ensures
            r == self.bits_spec(),
    {
        match self {
            MicTest::Off => 0,
            MicTest::Recording => 1,
            MicTest::Playing => 2,
            MicTest::Monitoring => 3,
        }
    }

    /// Reads a shared number back; anything unknown means the test is off.
    pub fn from_bits(bits: u8) -> (r: MicTest)
        ensures
            r == (if bits == 1 {
                MicTest::Recording
            } else if bits == 2 {
                MicTest::Playing
            } else if bits == 3 {
                MicTest::Monitoring
            } else {
                MicTest::Off
            }),
    {
        match bits {
            1 => MicTest::Recording,
            2 => MicTest::Playing,
            3 => MicTest::Monitoring,
            _ => MicTest::Off,
        }
    }

    /// Whether the microphone is being taken in at all.
    pub fn listening(self) -> (r: bool)
        ensures
            r == (self == MicTest::Recording || self == MicTest::Monitoring),
    {
        match self {
            MicTest::Recording | MicTest::Monitoring => true,
            _ => false,
        }
    }
}

/// A state survives the trip through the shared number unchanged.
pub proof fn lemma_mic_test_bits_round_trip(test: MicTest)
    ensures
        test.bits_spec() <= 3,
        (if test.bits_spec() == 1 {
            MicTest::Recording
        } else if test.bits_spec() == 2 {
            MicTest::Playing
        } else if test.bits_spec() == 3 {
            MicTest::Monitoring
        } else {
            MicTest::Off
        }) == test,
{
}

/// A voice frame arriving from the network.
#[derive(Debug, Clone)]
pub struct Incoming {
    pub from: PeerId,
    pub seq: u32,
    pub payload: Vec<u8>,
}

/// Where a frame of microphone audio goes while a test is running: straight to the
/// speaker when monitoring; into the recording, up to its ceiling, when recording;
/// nowhere otherwise.
pub fn take_microphone<T>(test: MicTest, pcm: Vec<T>, speaker: &mut Vec<T>, recorded: &mut Vec<T>)
    ensures
        match test {
            MicTest::Monitoring => final(speaker)@ == old(speaker)@ + pcm@ && final(recorded)@ == old(recorded)@,
            MicTest::Recording => {
                let room = if old(recorded)@.len() < TEST_SAMPLES { TEST_SAMPLES - old(recorded)@.len() } else { 0 };
                let taken = if pcm@.len() < room { pcm@.len() as int } else { room as int };
                &&& final(recorded)@ == old(recorded)@ + pcm@.take(taken)
                &&& final(speaker)@ == old(speaker)@
            },
            _ => final(speaker)@ == old(speaker)@ && final(recorded)@ == old(recorded)@,
        },
{
    match test {
        MicTest::Monitoring => {
            let mut pcm = pcm;
            speaker.append(&mut pcm);
        },
        MicTest::Recording => {
            let room = TEST_SAMPLES.saturating_sub(recorded.len());
            let ghost start = recorded@;
            let mut taken: usize = 0;
            for sample in it: pcm
                invariant
                    it.seq() == pcm@,
                    taken == (if it.index() < room { it.index() } else { room as int }),
                    recorded@ == start + pcm@.take(taken as int),
                    room == (if start.len() < TEST_SAMPLES { TEST_SAMPLES - start.len() } else { 0 }),
            {
                if taken < room {
                    recorded.push(sample);
                    taken = taken + 1;
                    assert(start + pcm@.take(taken as int) =~= start + pcm@.take(taken - 1).push(pcm@[taken - 1]));
                }
            }
        },
        MicTest::Off | MicTest::Playing => {},
    }
}

/// What goes on the speaker bus: the room's sources while the ears are open, and the
/// program's own sounds always, last.
///
/// Deafening leaves the room off the bus rather than zeroing it afterwards, so the
/// limiter never works against audio nobody is going to hear.
pub fn speaker_bus<'a, T>(room: &'a [Vec<T>], interface: &'a [T], hearing: bool) -> (r: Vec<&'a [T]>)
    ensures
        hearing ==> r@.len() == room@.len() + 1 && forall|i: int| 0 <= i < room@.len() ==> (#[trigger] r@[i])@ == room@[i]@,
        !hearing ==> r@.len() == 1,
        r@.last()@ == interface@,
{
    let mut bus: Vec<&[T]> = Vec::new();
    if hearing {
        let mut i: usize = 0;
        while i < room.len()
            invariant
                i <= room@.len(),
                bus@.len() == i,
                forall|j: int| 0 <= j < i ==> (#[trigger] bus@[j])@ == room@[j]@,
            decreases room@.len() - i,
        {
            bus.push(room[i].as_slice());
            i = i + 1;
        }
    }
    bus.push(interface);
    bus
}

} // verus!
