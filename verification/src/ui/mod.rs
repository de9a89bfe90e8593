//! The interface's decisions: what a screen line is, which sound a roster change
//! makes, and how text is laid out. Drawing and the terminal stay outside the library.
use vstd::prelude::*;
use vstd::string::StringExecFns;

use crate::audio::blip::Blip;
use crate::audio::device::Recovered;
use crate::proto::{ChannelId, ChatLine, PeerId, PeerInfo};
use crate::text::same_text;

pub mod keys;
pub mod layout;
pub mod screen;
pub mod state;
pub mod strand;
pub mod theme;





verus! {

/// A line in the chat pane: either someone's message or a system notice.
#[derive(Debug, Clone, PartialEq, Eq)]
pub enum Line {
    Chat(ChatLine),
    Notice { text: String, at: u64 },
}

/// The active top-level screen.
#[derive(Debug, Clone, Copy, PartialEq, Eq, Structural)]
pub enum ViewMode {
    Chat,
    Settings,
}

impl Default for ViewMode {
    fn default() -> (r: ViewMode)
        ensures
            r == ViewMode::Chat,
    {
        ViewMode::Chat
    }
}

/// Focusable section within the settings screen.
#[derive(Debug, Clone, Copy, PartialEq, Eq, Structural)]
pub enum SettingsSection {
    InputDevice,
    OutputDevice,
    MicTest,
    Typing,
}

impl Default for SettingsSection {
    fn default() -> (r: SettingsSection)
        ensures
            r == SettingsSection::InputDevice,
    {
        SettingsSection::InputDevice
    }
}

/// What to tell the room about a stream that was taken away and put back.
pub open spec fn describe_spec(news: Recovered) -> Seq<char> {
    match news.device {
        Some(device) => "the "@ + news.side.name_spec() + " changed — now on "@ + device@,
        None => "the "@ + news.side.name_spec() + " was lost and will not reopen"@,
    }
}

pub fn describe(news: &Recovered) -> (r: String)
    ensures
        r@ == describe_spec(*news),
{
    let mut text = String::from_str("the ");
    text.append(news.side.name());
    match &news.device {
        Some(device) => {
            text.append(" changed — now on ");
            text.append(device.as_str());
        },
        None => text.append(" was lost and will not reopen"),
    }
    text
}

/// Keeps the interface from repeating itself about the audio devices: a note is shown
/// only when it differs from the last one shown.
pub struct AudioNotes {
    last: Option<String>,
}

impl Default for AudioNotes {
    fn default() -> (r: AudioNotes)
        ensures
            r.last_shown() is None,
    {
        AudioNotes { last: None }
    }
}

impl AudioNotes {
    /// The last note shown, if any.
    pub closed spec fn last_shown(&self) -> Option<Seq<char>> {
        match self.last {
            Some(text) => Some(text@),
            None => None,
        }
    }

    /// The note to show now: `None` when it repeats the last one shown.
    pub fn pass(&mut self, note: String) -> (r: Option<String>)
        ensures
            old(self).last_shown() == Some(note@) ==> r is None && final(self).last_shown() == old(self).last_shown(),
            old(self).last_shown() != Some(note@) ==> (r matches Some(shown) && shown@ == note@)
                && final(self).last_shown() == Some(note@),
    {
        let repeated = match &self.last {
            Some(last) => same_text(last.as_str(), note.as_str()),
            None => false,
        };
        if repeated {
            return None;
        }
        let kept = note.clone();
        self.last = Some(kept);
        Some(note)
    }
}

/// Decides what the interface says about your own microphone and ears.
///
/// The keys only send a command (the state that matters comes back from the
/// coordinator), so the sound follows what actually happened rather than what was
/// asked for. The first roster is a sync rather than a change, and makes no sound.
pub struct SelfChime {
    known: Option<(bool, bool)>,
}

impl Default for SelfChime {
    fn default() -> (r: SelfChime)
        ensures
            r.known_state() is None,
    {
        SelfChime { known: None }
    }
}

/// The sound for going from one (muted, deafened) state to another.
pub open spec fn self_chime(was: Option<(bool, bool)>, muted: bool, deafened: bool) -> Option<Blip> {
    match was {
        None => None,
        Some((was_muted, was_deafened)) => if deafened != was_deafened {
            Some(if deafened { Blip::EarsOff } else { Blip::EarsOn })
        } else if muted != was_muted {
            Some(if muted { Blip::MicOff } else { Blip::MicOn })
        } else {
            None
        },
    }
}

impl SelfChime {
    /// Your state as of the last roster, if there has been one.
    pub closed spec fn known_state(&self) -> Option<(bool, bool)> {
        self.known
    }

    /// Shutting your ears closes the microphone with them. That is one action, so it
    /// makes one sound; the mute that came along is not news.
    pub fn on_roster(&mut self, muted: bool, deafened: bool) -> (r: Option<Blip>)
        ensures
            final(self).known_state() == Some((muted, deafened)),
            r == self_chime(old(self).known_state(), muted, deafened),
    {
        let was = self.known;
        self.known = Some((muted, deafened));
        match was {
            None => None,
            Some((was_muted, was_deafened)) => {
                if deafened != was_deafened {
                    Some(if deafened { Blip::EarsOff } else { Blip::EarsOn })
                } else if muted != was_muted {
                    Some(if muted { Blip::MicOff } else { Blip::MicOn })
                } else {
                    None
                }
            },
        }
    }
}

/// A roster that changes nothing about you is silent, whatever it says about others.
pub proof fn lemma_unchanged_state_is_silent(muted: bool, deafened: bool)
    ensures
        self_chime(Some((muted, deafened)), muted, deafened) is None,
        self_chime(None, muted, deafened) is None,
{
}

/// Decides when the welcome chime should sound.
pub struct JoinChime {
    known: Vec<PeerId>,
    seeded: bool,
}

impl Default for JoinChime {
    fn default() -> (r: JoinChime)
        ensures
            r.known_ids().len() == 0,
            !r.is_seeded(),
    {
        JoinChime { known: Vec::new(), seeded: false }
    }
}

/// Whether the roster holds someone other than `me` that was not known before.
pub open spec fn has_newcomer(me: PeerId, known: Seq<PeerId>, roster: Seq<PeerInfo>) -> bool {
    exists|i: int| 0 <= i < roster.len() && #[trigger] roster[i].id != me && !known.contains(roster[i].id)
}

fn same_channel(a: Option<ChannelId>, b: Option<ChannelId>) -> (r: bool)
    ensures
        r == (a == b),
{
    match (a, b) {
        (None, None) => true,
        (Some(x), Some(y)) => x.0 == y.0,
        _ => false,
    }
}

impl JoinChime {
    /// The identities on the last roster.
    pub closed spec fn known_ids(&self) -> Seq<PeerId> {
        self.known@
    }

    /// Whether a roster has been seen yet.
    pub closed spec fn is_seeded(&self) -> bool {
        self.seeded
    }

    /// Called on every roster. It chimes when somebody new arrives (but not on the
    /// first roster, which is only a sync) and when you enter a voice channel or move
    /// to another.
    pub fn on_roster(&mut self, me: &PeerId, roster: &[PeerInfo], voice: Option<ChannelId>, prev_voice: Option<ChannelId>) -> (r: bool)
        ensures
            final(self).known_ids() == roster@.map_values(|p: PeerInfo| p.id),
            final(self).is_seeded(),
            r == ((has_newcomer(*me, old(self).known_ids(), roster@) && old(self).is_seeded()) || (voice is Some && voice
                != prev_voice)),
    {
        let mut newcomer = false;
        let mut ids: Vec<PeerId> = Vec::new();
        let mut i: usize = 0;
        while i < roster.len()
            invariant
                i <= roster@.len(),
                ids@ == roster@.take(i as int).map_values(|p: PeerInfo| p.id),
                newcomer == exists|k: int| 0 <= k < i && #[trigger] roster@[k].id != *me && !self.known@.contains(roster@[k].id),
            decreases roster@.len() - i,
        {
            let id = roster[i].id;
            if !id.same(me) && !known_holds(&self.known, &id) {
                newcomer = true;
            }
            ids.push(id);
            i = i + 1;
            assert(ids@ =~= roster@.take(i as int).map_values(|p: PeerInfo| p.id));
        }
        assert(roster@.take(i as int) =~= roster@);
        let announce = newcomer && self.seeded;
        self.known = ids;
        self.seeded = true;
        let joined_channel = voice.is_some() && !same_channel(voice, prev_voice);
        announce || joined_channel
    }
}

fn known_holds(list: &Vec<PeerId>, id: &PeerId) -> (r: bool)
    ensures
        r == list@.contains(*id),
{
    let mut i: usize = 0;
    while i < list.len()
        invariant
            i <= list@.len(),
            forall|j: int| 0 <= j < i ==> list@[j] != *id,
        decreases list@.len() - i,
    {
        if list[i].same(id) {
            return true;
        }
        i = i + 1;
    }
    false
}

} // verus!
