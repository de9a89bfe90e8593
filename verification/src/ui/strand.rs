//! The string between the rail and the talk.
//!
//! It is the only divider on screen, and it is drawn from the live link: taut when
//! everyone is reached directly, sagging when someone comes through a relay, fraying
//! when audio drops, sparse when there is nobody on the other end. While anyone is
//! talking a pulse travels down it at the speed of the round trip.
use vstd::prelude::*;

use crate::net::voice::LinkStatus;
use crate::ui::theme::Strand;

verus! {

/// How long the pulse rests on one row over a perfect link, in milliseconds.
pub const PULSE_FLOOR_MS: u128 = 55;

/// The round trip time is slowed down by this much before it is added to the rest.
pub const RTT_DAMPING: u128 = 3;

/// Beyond this the pulse would crawl; a link this slow is already reported in words.
pub const RTT_CEILING: u128 = 300;

/// What the string is doing: dropouts outrank a relay, which outranks a direct link.
pub open spec fn strand_spec(voice_available: bool, link: LinkStatus, recently_dropped: bool) -> Strand {
    if !voice_available || link.direct + link.relayed == 0 {
        Strand::Idle
    } else if recently_dropped {
        Strand::Frayed
    } else if link.relayed > 0 {
        Strand::Slack
    } else {
        Strand::Taut
    }
}

pub fn strand_of(voice_available: bool, link: &LinkStatus, recently_dropped: bool) -> (r: Strand)
    ensures
        r == strand_spec(voice_available, *link, recently_dropped),
{
    if !voice_available || (link.direct == 0 && link.relayed == 0) {
        Strand::Idle
    } else if recently_dropped {
        Strand::Frayed
    } else if link.relayed > 0 {
        Strand::Slack
    } else {
        Strand::Taut
    }
}

/// The same reading in words, for the header chip.
pub open spec fn label_spec(voice_available: bool, strand: Strand) -> Seq<char> {
    match strand {
        Strand::Idle => if !voice_available { "TEXT ONLY"@ } else { "ALONE"@ },
        Strand::Taut => "DIRECT"@,
        Strand::Slack => "RELAY"@,
        Strand::Frayed => "CHOPPY"@,
    }
}

pub fn label(voice_available: bool, strand: Strand) -> (r: &'static str)
    ensures
        r@ == label_spec(voice_available, strand),
{
    match strand {
        Strand::Idle => if !voice_available {
            "TEXT ONLY"
        } else {
            "ALONE"
        },
        Strand::Taut => "DIRECT",
        Strand::Slack => "RELAY",
        Strand::Frayed => "CHOPPY",
    }
}

/// A waiting string is drawn sparsely (nobody is pulling on it) and a fraying one has
/// gaps torn in it. Taut and slack strings run whole.
pub open spec fn unbroken_spec(strand: Strand, row: u16) -> bool {
    match strand {
        Strand::Idle => row % 3 == 0,
        Strand::Frayed => row % 4 != 2,
        Strand::Taut | Strand::Slack => true,
    }
}

pub fn unbroken(strand: Strand, row: u16) -> (r: bool)
    ensures
        r == unbroken_spec(strand, row),
{
    match strand {
        Strand::Idle => row % 3 == 0,
        Strand::Frayed => row % 4 != 2,
        Strand::Taut | Strand::Slack => true,
    }
}

/// A fraying string has gaps and still shows; a taut or slack one is whole.
pub proof fn lemma_fraying_shows_gaps_but_stays(row: u16)
    ensures
        !unbroken_spec(Strand::Frayed, 2),
        unbroken_spec(Strand::Frayed, 0),
        unbroken_spec(Strand::Taut, row),
        unbroken_spec(Strand::Slack, row),
{
}

/// How long the pulse rests on each row: the floor plus the damped round trip, the
/// round trip capped at the ceiling.
pub open spec fn per_row_ms(worst_rtt_ms: Option<u128>) -> int {
    let rtt = match worst_rtt_ms {
        Some(ms) => if ms < RTT_CEILING { ms as int } else { RTT_CEILING as int },
        None => 0,
    };
    PULSE_FLOOR_MS + rtt / (RTT_DAMPING as int)
}

/// Which row the pulse is on, or `None` when no voice is travelling. With reduced
/// motion the pulse still reports that voice flows; it just holds still mid-string.
pub open spec fn pulse_row_spec(speaking: bool, motion: bool, worst_rtt_ms: Option<u128>, elapsed_ms: u128, height: u16) -> Option<u16> {
    if !speaking || height == 0 {
        None
    } else if !motion {
        Some((height / 2) as u16)
    } else {
        Some(((elapsed_ms / (per_row_ms(worst_rtt_ms) as u128)) % (height as u128)) as u16)
    }
}

pub fn pulse_row(speaking: bool, motion: bool, worst_rtt_ms: Option<u128>, elapsed_ms: u128, height: u16) -> (r: Option<u16>)
    ensures
        r == pulse_row_spec(speaking, motion, worst_rtt_ms, elapsed_ms, height),
        r matches Some(row) ==> row < height,
{
    if !speaking || height == 0 {
        return None;
    }
    if !motion {
        return Some(height / 2);
    }
    let rtt: u128 = match worst_rtt_ms {
        Some(ms) => if ms < RTT_CEILING {
            ms
        } else {
            RTT_CEILING
        },
        None => 0,
    };
    let per_row: u128 = PULSE_FLOOR_MS + rtt / RTT_DAMPING;
    let row = (elapsed_ms / per_row) % (height as u128);
    Some(row as u16)
}

} // verus!
