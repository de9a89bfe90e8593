//! The state the interface shows, and how events are applied to it.
//!
//! Kept independent of the terminal and the network: as a plain state machine,
//! questions like "who shows up where, which message lands in which pane" can be
//! answered. Levels, gains and timers (floats and clocks) are kept beside it by the
//! program around the library.
use vstd::prelude::*;
use vstd::string::StringExecFns;

use crate::audio::device::AudioDeviceInfo;
use crate::audio::MicTest;
use crate::net::voice::LinkStatus;
use crate::net::Event;
use crate::proto::{ChannelId, ChatLine, PeerId, PeerInfo};
use crate::text::{chars_of, string_of, trim, trim_chars};
use crate::ui::{Line, SettingsSection, ViewMode};

verus! {

/// The most lines kept in the chat pane.
pub const VISIBLE_HISTORY: usize = 500;

/// The name recorded for an identity: the first entry for it in the list.
pub open spec fn lookup_name(names: Seq<(PeerId, String)>, id: PeerId) -> Option<Seq<char>>
    decreases names.len(),
{
    if names.len() == 0 {
        None
    } else if names[0].0 == id {
        Some(names[0].1@)
    } else {
        lookup_name(names.drop_first(), id)
    }
}

/// The names as a map from identity to name.
pub open spec fn names_map(names: Seq<(PeerId, String)>) -> Map<PeerId, Seq<char>> {
    Map::new(|id: PeerId| lookup_name(names, id) is Some, |id: PeerId| lookup_name(names, id)->0)
}

/// The names with every peer of a roster recorded, later entries winning.
pub open spec fn remembered(names: Map<PeerId, Seq<char>>, roster: Seq<PeerInfo>) -> Map<PeerId, Seq<char>>
    decreases roster.len(),
{
    if roster.len() == 0 {
        names
    } else {
        remembered(names, roster.drop_last()).insert(roster.last().id, roster.last().name@)
    }
}

proof fn lemma_lookup_at(names: Seq<(PeerId, String)>, id: PeerId, i: int)
    requires
        0 <= i < names.len(),
        names[i].0 == id,
        forall|j: int| 0 <= j < i ==> (#[trigger] names[j]).0 != id,
    ensures
        lookup_name(names, id) == Some(names[i].1@),
    decreases i,
{
    if i > 0 {
        let rest = names.drop_first();
        assert forall|j: int| 0 <= j < i - 1 implies (#[trigger] rest[j]).0 != id by {
            assert(rest[j] == names[j + 1]);
        }
        lemma_lookup_at(rest, id, i - 1);
    }
}

proof fn lemma_lookup_absent(names: Seq<(PeerId, String)>, id: PeerId)
    requires
        forall|j: int| 0 <= j < names.len() ==> (#[trigger] names[j]).0 != id,
    ensures
        lookup_name(names, id) is None,
    decreases names.len(),
{
    if names.len() > 0 {
        let rest = names.drop_first();
        assert forall|j: int| 0 <= j < rest.len() implies (#[trigger] rest[j]).0 != id by {
            assert(rest[j] == names[j + 1]);
        }
        lemma_lookup_absent(rest, id);
    }
}

proof fn lemma_lookup_update(names: Seq<(PeerId, String)>, i: int, entry: (PeerId, String), other: PeerId)
    requires
        0 <= i < names.len(),
        names[i].0 == entry.0,
        forall|j: int| 0 <= j < i ==> (#[trigger] names[j]).0 != entry.0,
    ensures
        lookup_name(names.update(i, entry), other) == if other == entry.0 {
            Some(entry.1@)
        } else {
            lookup_name(names, other)
        },
    decreases i,
{
    let updated = names.update(i, entry);
    if i == 0 {
        assert(updated.drop_first() =~= names.drop_first());
    } else {
        let rest = names.drop_first();
        assert(updated.drop_first() =~= rest.update(i - 1, entry));
        assert forall|j: int| 0 <= j < i - 1 implies (#[trigger] rest[j]).0 != entry.0 by {
            assert(rest[j] == names[j + 1]);
        }
        assert(names[0].0 != entry.0);
        lemma_lookup_update(rest, i - 1, entry, other);
    }
}

proof fn lemma_lookup_push(names: Seq<(PeerId, String)>, entry: (PeerId, String), other: PeerId)
    requires
        forall|j: int| 0 <= j < names.len() ==> (#[trigger] names[j]).0 != entry.0,
    ensures
        lookup_name(names.push(entry), other) == if other == entry.0 {
            Some(entry.1@)
        } else {
            lookup_name(names, other)
        },
    decreases names.len(),
{
    let pushed = names.push(entry);
    if names.len() == 0 {
        assert(pushed.drop_first() =~= Seq::<(PeerId, String)>::empty());
        assert(pushed[0] == entry);
        assert(lookup_name(Seq::<(PeerId, String)>::empty(), other) is None);
    } else {
        assert(pushed[0] == names[0]);
        let rest = names.drop_first();
        assert(pushed.drop_first() =~= rest.push(entry));
        assert forall|j: int| 0 <= j < rest.len() implies (#[trigger] rest[j]).0 != entry.0 by {
            assert(rest[j] == names[j + 1]);
        }
        lemma_lookup_push(rest, entry, other);
    }
}

/// A line shows in the pane for `viewing`: chat from that channel, and every notice.
pub open spec fn line_visible(line: Line, viewing: ChannelId) -> bool {
    match line {
        Line::Chat(chat) => chat.channel == viewing,
        Line::Notice { .. } => true,
    }
}

/// The lines of the pane for `viewing`, in order.
pub open spec fn visible_of(lines: Seq<Line>, viewing: ChannelId) -> Seq<Line>
    decreases lines.len(),
{
    if lines.len() == 0 {
        Seq::empty()
    } else if line_visible(lines.last(), viewing) {
        visible_of(lines.drop_last(), viewing).push(lines.last())
    } else {
        visible_of(lines.drop_last(), viewing)
    }
}

/// The peers of a roster sitting in a voice channel, in roster order.
pub open spec fn peers_in_of(peers: Seq<PeerInfo>, channel: ChannelId) -> Seq<PeerInfo>
    decreases peers.len(),
{
    if peers.len() == 0 {
        Seq::empty()
    } else if peers.last().channel == Some(channel) {
        peers_in_of(peers.drop_last(), channel).push(peers.last())
    } else {
        peers_in_of(peers.drop_last(), channel)
    }
}

/// The first entry of a roster for an identity.
pub open spec fn find_peer(peers: Seq<PeerInfo>, id: PeerId) -> Option<PeerInfo>
    decreases peers.len(),
{
    if peers.len() == 0 {
        None
    } else if peers[0].id == id {
        Some(peers[0])
    } else {
        find_peer(peers.drop_first(), id)
    }
}

proof fn lemma_find_peer_at(peers: Seq<PeerInfo>, id: PeerId, i: int)
    requires
        0 <= i < peers.len(),
        peers[i].id == id,
        forall|j: int| 0 <= j < i ==> (#[trigger] peers[j]).id != id,
    ensures
        find_peer(peers, id) == Some(peers[i]),
    decreases i,
{
    if i > 0 {
        let rest = peers.drop_first();
        assert forall|j: int| 0 <= j < i - 1 implies (#[trigger] rest[j]).id != id by {
            assert(rest[j] == peers[j + 1]);
        }
        lemma_find_peer_at(rest, id, i - 1);
    }
}

proof fn lemma_find_peer_absent(peers: Seq<PeerInfo>, id: PeerId)
    requires
        forall|j: int| 0 <= j < peers.len() ==> (#[trigger] peers[j]).id != id,
    ensures
        find_peer(peers, id) is None,
    decreases peers.len(),
{
    if peers.len() > 0 {
        let rest = peers.drop_first();
        assert forall|j: int| 0 <= j < rest.len() implies (#[trigger] rest[j]).id != id by {
            assert(rest[j] == peers[j + 1]);
        }
        lemma_find_peer_absent(rest, id);
    }
}

/// Everyone in the room whose volume can be changed: everyone but yourself, in roster
/// order. You do not hear yourself, so there is nothing there to turn down.
pub open spec fn others_of(peers: Seq<PeerInfo>, me: PeerId) -> Seq<PeerId>
    decreases peers.len(),
{
    if peers.len() == 0 {
        Seq::empty()
    } else if peers.last().id == me {
        others_of(peers.drop_last(), me)
    } else {
        others_of(peers.drop_last(), me).push(peers.last().id)
    }
}

proof fn lemma_others_not_me(peers: Seq<PeerInfo>, me: PeerId)
    ensures
        forall|k: int| 0 <= k < others_of(peers, me).len() ==> #[trigger] others_of(peers, me)[k] != me,
        forall|k: int| 0 <= k < others_of(peers, me).len() ==> peers.map_values(|p: PeerInfo| p.id).contains(
            #[trigger] others_of(peers, me)[k],
        ),
    decreases peers.len(),
{
    if peers.len() > 0 {
        lemma_others_not_me(peers.drop_last(), me);
        let o = others_of(peers, me);
        let before = others_of(peers.drop_last(), me);
        let ids = peers.map_values(|p: PeerInfo| p.id);
        let ids_before = peers.drop_last().map_values(|p: PeerInfo| p.id);
        assert forall|k: int| 0 <= k < o.len() implies ids.contains(#[trigger] o[k]) by {
            if k < before.len() {
                assert(o[k] == before[k]);
                let w = choose|w: int| 0 <= w < ids_before.len() && ids_before[w] == before[k];
                assert(ids[w] == ids_before[w]);
            } else {
                assert(ids[peers.len() - 1] == peers.last().id);
            }
        }
        assert forall|k: int| 0 <= k < o.len() implies #[trigger] o[k] != me by {
            if k < before.len() {
                assert(o[k] == before[k]);
            }
        }
    }
}

/// The state the interface shows.
pub struct App {
    pub me: PeerId,
    pub room_name: String,
    pub invite_code: String,
    pub channels: Vec<String>,
    pub peers: Vec<PeerInfo>,
    /// The name of every identity ever seen. It does not shrink when the roster does,
    /// so old messages keep their author's name.
    pub names: Vec<(PeerId, String)>,
    pub lines: Vec<Line>,
    /// The channel on screen; a typed message goes here.
    pub viewing: ChannelId,
    /// Channels somebody has written in since you last looked at them.
    pub unread: Vec<ChannelId>,
    /// The channel we are connected to by voice. Independent of the one being viewed:
    /// you can talk in "gaming" while reading the chat in "general".
    pub voice: Option<ChannelId>,
    pub muted: bool,
    /// Deafened: we hear nobody. Comes from the roster, so everyone can see it.
    pub deafened: bool,
    /// Whether push-to-talk is on.
    pub ptt_mode: bool,
    /// Whether the push-to-talk key is held.
    pub ptt_active: bool,
    pub input: String,
    /// Who is speaking right now, as the audio engine reports it.
    pub speaking: Vec<PeerId>,
    /// Whose row the roster cursor is on, held as an identity so that someone leaving
    /// cannot silently move the cursor onto somebody else.
    pub selected_peer: Option<PeerId>,
    /// Whether the string may animate. Off under reduced motion.
    pub motion: bool,
    /// Whether the audio hardware came up. If it did not, the interface must say so.
    pub voice_available: bool,
    /// The quality of the voice connections; refreshed periodically.
    pub link: LinkStatus,
    /// Audio dropouts heard so far. It only ever climbs.
    pub audio_dropouts: u64,
    pub status: Option<String>,
    /// Filled with a reason when the session ends; the interface closes once it is set.
    pub ended: Option<String>,
    pub view_mode: ViewMode,
    pub settings_section: SettingsSection,
    pub input_devices: Vec<AudioDeviceInfo>,
    pub output_devices: Vec<AudioDeviceInfo>,
    pub selected_input_idx: usize,
    pub selected_output_idx: usize,
    pub active_input_name: Option<String>,
    pub active_output_name: Option<String>,
    /// Whether typing makes a sound.
    pub typing_clicks: bool,
    /// What the microphone test is doing.
    pub mic_test: MicTest,
    /// Set when live monitoring was cut off because it started feeding back.
    pub fed_back: bool,
    pub settings_error: Option<String>,
}

impl App {
    /// Every identity's remembered name.
    pub open spec fn names_v(&self) -> Map<PeerId, Seq<char>> {
        names_map(self.names@)
    }

    pub fn new(me: PeerId, invite_code: String) -> (r: App)
        ensures
            r.me == me,
            r.invite_code == invite_code,
            r.room_name@.len() == 0,
            r.channels@.len() == 0,
            r.peers@.len() == 0,
            r.names_v() == Map::<PeerId, Seq<char>>::empty(),
            r.lines@.len() == 0,
            r.viewing == ChannelId(0),
            r.unread@.len() == 0,
            r.voice is None,
            !r.muted && !r.deafened && !r.ptt_mode && !r.ptt_active,
            r.input@.len() == 0,
            r.speaking@.len() == 0,
            r.motion && !r.voice_available,
            r.link.direct == 0 && r.link.relayed == 0 && r.link.worst_rtt is None,
            r.audio_dropouts == 0,
            r.selected_peer is None && r.status is None && r.ended is None,
            r.view_mode == ViewMode::Chat,
            r.settings_section == SettingsSection::InputDevice,
            r.input_devices@.len() == 0 && r.output_devices@.len() == 0,
            r.selected_input_idx == 0 && r.selected_output_idx == 0,
            r.active_input_name is None && r.active_output_name is None,
            !r.typing_clicks,
            r.mic_test == MicTest::Off,
            !r.fed_back,
            r.settings_error is None,
    {
        let r = App {
            me,
            room_name: String::new(),
            invite_code,
            channels: Vec::new(),
            peers: Vec::new(),
            names: Vec::new(),
            lines: Vec::new(),
            viewing: ChannelId(0),
            unread: Vec::new(),
            voice: None,
            muted: false,
            deafened: false,
            ptt_mode: false,
            ptt_active: false,
            input: String::new(),
            speaking: Vec::new(),
            selected_peer: None,
            motion: true,
            voice_available: false,
            link: LinkStatus::default(),
            audio_dropouts: 0,
            status: None,
            ended: None,
            view_mode: ViewMode::Chat,
            settings_section: SettingsSection::InputDevice,
            input_devices: Vec::new(),
            output_devices: Vec::new(),
            selected_input_idx: 0,
            selected_output_idx: 0,
            active_input_name: None,
            active_output_name: None,
            typing_clicks: false,
            mic_test: MicTest::Off,
            fed_back: false,
            settings_error: None,
        };
        assert(r.names_v() =~= Map::<PeerId, Seq<char>>::empty());
        r
    }

    /// Records one identity's name.
    fn remember(&mut self, id: PeerId, name: String)
        ensures
            final(self).names_v() == old(self).names_v().insert(id, name@),
            *final(self) == (App { names: final(self).names, ..*old(self) }),
    {
        let ghost before = self.names@;
        let mut i: usize = 0;
        while i < self.names.len()
            invariant
                i <= self.names@.len(),
                self.names@ == before,
                before == old(self).names@,
                *self == *old(self),
                forall|j: int| 0 <= j < i ==> (#[trigger] self.names@[j]).0 != id,
            decreases self.names@.len() - i,
        {
            if self.names[i].0.same(&id) {
                let entry = (id, name);
                proof {
                    assert forall|other: PeerId| lookup_name(before.update(i as int, entry), other) == if other == id {
                        Some(entry.1@)
                    } else {
                        lookup_name(before, other)
                    } by {
                        lemma_lookup_update(before, i as int, entry, other);
                    }
                }
                self.names.set(i, entry);
                assert(names_map(self.names@) =~= names_map(before).insert(id, name@));
                return;
            }
            i = i + 1;
        }
        let entry = (id, name);
        proof {
            assert forall|other: PeerId| lookup_name(before.push(entry), other) == if other == id {
                Some(entry.1@)
            } else {
                lookup_name(before, other)
            } by {
                lemma_lookup_push(before, entry, other);
            }
        }
        self.names.push(entry);
        assert(names_map(self.names@) =~= names_map(before).insert(id, name@));
    }

    /// Records the names of everyone on a roster.
    fn remember_names(&mut self, roster: &Vec<PeerInfo>)
        ensures
            final(self).names_v() == remembered(old(self).names_v(), roster@),
            *final(self) == (App { names: final(self).names, ..*old(self) }),
    {
        let ghost start = self.names_v();
        let mut i: usize = 0;
        while i < roster.len()
            invariant
                i <= roster@.len(),
                self.names_v() == remembered(start, roster@.take(i as int)),
                start == old(self).names_v(),
                *self == (App { names: self.names, ..*old(self) }),
            decreases roster@.len() - i,
        {
            assert(roster@.take(i + 1).drop_last() =~= roster@.take(i as int));
            self.remember(roster[i].id, roster[i].name.clone());
            i = i + 1;
        }
        assert(roster@.take(i as int) =~= roster@);
    }

    /// The first roster entry for an identity.
    fn find_in(peers: &Vec<PeerInfo>, id: &PeerId) -> (r: Option<usize>)
        ensures
            match r {
                Some(i) => i < peers@.len() && find_peer(peers@, *id) == Some(peers@[i as int]),
                None => find_peer(peers@, *id) is None,
            },
    {
        let mut i: usize = 0;
        while i < peers.len()
            invariant
                i <= peers@.len(),
                forall|j: int| 0 <= j < i ==> (#[trigger] peers@[j]).id != *id,
            decreases peers@.len() - i,
        {
            if peers[i].id.same(id) {
                proof {
                    lemma_find_peer_at(peers@, *id, i as int);
                }
                return Some(i);
            }
            i = i + 1;
        }
        proof {
            lemma_find_peer_absent(peers@, *id);
        }
        None
    }

    /// Takes our own channel, mute and deafen from the coordinator's roster, so they
    /// stay right across a reconnect too.
    fn sync_self_from_roster(&mut self)
        ensures
            match find_peer(old(self).peers@, old(self).me) {
                Some(mine) => final(self).voice == mine.channel && final(self).muted == mine.muted
                    && final(self).deafened == mine.deafened,
                None => final(self).voice == old(self).voice && final(self).muted == old(self).muted
                    && final(self).deafened == old(self).deafened,
            },
            *final(self) == (App { voice: final(self).voice, muted: final(self).muted, deafened: final(self).deafened, ..*old(self) }),
    {
        if let Some(i) = App::find_in(&self.peers, &self.me) {
            self.voice = self.peers[i].channel;
            self.muted = self.peers[i].muted;
            self.deafened = self.peers[i].deafened;
        }
    }

    /// Adds a line to the pane, keeping only the last `VISIBLE_HISTORY`.
    pub fn push(&mut self, line: Line)
        ensures
            final(self).lines@ == (if old(self).lines@.len() + 1 > VISIBLE_HISTORY {
                old(self).lines@.push(line).skip(old(self).lines@.len() + 1 - VISIBLE_HISTORY)
            } else {
                old(self).lines@.push(line)
            }),
            *final(self) == (App { lines: final(self).lines, ..*old(self) }),
    {
        self.lines.push(line);
        let ghost full = self.lines@;
        let total = self.lines.len();
        let mut dropped: usize = 0;
        while self.lines.len() > VISIBLE_HISTORY
            invariant
                self.lines@ == full.skip(dropped as int),
                *self == (App { lines: self.lines, ..*old(self) }),
                total == full.len(),
                dropped <= full.len(),
                dropped == 0 || full.len() - dropped >= VISIBLE_HISTORY,
            decreases self.lines@.len(),
        {
            self.lines.remove(0);
            dropped = dropped + 1;
            assert(self.lines@ =~= full.skip(dropped as int));
        }
        assert(full.skip(0) =~= full);
    }
}

/// Where a section sits in the settings screen's tab order.
pub open spec fn section_index(section: SettingsSection) -> int {
    match section {
        SettingsSection::InputDevice => 0,
        SettingsSection::OutputDevice => 1,
        SettingsSection::MicTest => 2,
        SettingsSection::Typing => 3,
    }
}

pub open spec fn section_at(i: int) -> SettingsSection {
    if i == 0 {
        SettingsSection::InputDevice
    } else if i == 1 {
        SettingsSection::OutputDevice
    } else if i == 2 {
        SettingsSection::MicTest
    } else {
        SettingsSection::Typing
    }
}

/// The section a tab (or shift+tab) lands on; the four wrap round.
pub open spec fn next_section(section: SettingsSection, forward: bool) -> SettingsSection {
    section_at((section_index(section) + if forward { 1int } else { 3int }) % 4)
}

/// A list position one step on, wrapping round.
pub open spec fn step_index(index: int, len: int, forward: bool) -> int {
    if forward {
        (index + 1) % len
    } else {
        (index + len - 1) % len
    }
}

/// The first device with the given name.
pub open spec fn first_named(devices: Seq<AudioDeviceInfo>, name: Seq<char>) -> Option<int> {
    if exists|i: int| 0 <= i < devices.len() && (#[trigger] devices[i]).name@ == name {
        Some(choose|i: int| 0 <= i < devices.len() && (#[trigger] devices[i]).name@ == name && forall|j: int|
            0 <= j < i ==> (#[trigger] devices[j]).name@ != name)
    } else {
        None
    }
}

/// The first device the system calls default.
pub open spec fn first_default(devices: Seq<AudioDeviceInfo>) -> Option<int> {
    if exists|i: int| 0 <= i < devices.len() && (#[trigger] devices[i]).is_default {
        Some(choose|i: int| 0 <= i < devices.len() && (#[trigger] devices[i]).is_default && forall|j: int|
            0 <= j < i ==> !(#[trigger] devices[j]).is_default)
    } else {
        None
    }
}

/// Which device is highlighted once a fresh list arrives: the one in use if it is
/// listed, else (when nothing is in use) the system default, else where the cursor
/// was; and the top of the list if that is past its end.
pub open spec fn adopted_index(devices: Seq<AudioDeviceInfo>, active: Option<Seq<char>>, current: usize) -> usize {
    if devices.len() == 0 {
        current
    } else {
        let picked: int = match active {
            Some(name) => match first_named(devices, name) {
                Some(i) => i,
                None => current as int,
            },
            None => match first_default(devices) {
                Some(i) => i,
                None => current as int,
            },
        };
        if picked >= devices.len() {
            0
        } else {
            picked as usize
        }
    }
}

fn find_named(devices: &Vec<AudioDeviceInfo>, name: &String) -> (r: Option<usize>)
    ensures
        match r {
            Some(i) => first_named(devices@, name@) == Some(i as int),
            None => first_named(devices@, name@) is None,
        },
{
    let mut i: usize = 0;
    while i < devices.len()
        invariant
            i <= devices@.len(),
            forall|j: int| 0 <= j < i ==> (#[trigger] devices@[j]).name@ != name@,
        decreases devices@.len() - i,
    {
        if devices[i].name == *name {
            assert(0 <= i < devices@.len() && devices@[i as int].name@ == name@);
            let ghost c = choose|k: int| 0 <= k < devices@.len() && (#[trigger] devices@[k]).name@ == name@ && forall|j: int|
                0 <= j < k ==> (#[trigger] devices@[j]).name@ != name@;
            assert(c == i) by {
                if c < i {
                    assert(devices@[c].name@ != name@);
                }
                if c > i {
                    assert(devices@[i as int].name@ != name@);
                }
            }
            return Some(i);
        }
        i = i + 1;
    }
    None
}

fn find_default(devices: &Vec<AudioDeviceInfo>) -> (r: Option<usize>)
    ensures
        match r {
            Some(i) => first_default(devices@) == Some(i as int),
            None => first_default(devices@) is None,
        },
{
    let mut i: usize = 0;
    while i < devices.len()
        invariant
            i <= devices@.len(),
            forall|j: int| 0 <= j < i ==> !(#[trigger] devices@[j]).is_default,
        decreases devices@.len() - i,
    {
        if devices[i].is_default {
            assert(0 <= i < devices@.len() && devices@[i as int].is_default);
            let ghost c = choose|k: int| 0 <= k < devices@.len() && (#[trigger] devices@[k]).is_default && forall|j: int|
                0 <= j < k ==> !(#[trigger] devices@[j]).is_default;
            assert(c == i) by {
                if c < i {
                    assert(!devices@[c].is_default);
                }
                if c > i {
                    assert(!devices@[i as int].is_default);
                }
            }
            return Some(i);
        }
        i = i + 1;
    }
    None
}

fn adopt_index(devices: &Vec<AudioDeviceInfo>, active: &Option<String>, current: usize) -> (r: usize)
    ensures
        r == adopted_index(devices@, match active {
            Some(n) => Some(n@),
            None => None,
        }, current),
{
    if devices.len() == 0 {
        return current;
    }
    let picked = match active {
        Some(name) => match find_named(devices, name) {
            Some(i) => i,
            None => current,
        },
        None => match find_default(devices) {
            Some(i) => i,
            None => current,
        },
    };
    if picked >= devices.len() {
        0
    } else {
        picked
    }
}

fn without_channel(list: &Vec<ChannelId>, gone: ChannelId) -> (r: Vec<ChannelId>)
    ensures
        forall|c: ChannelId| #[trigger] r@.contains(c) <==> list@.contains(c) && c != gone,
{
    let mut out: Vec<ChannelId> = Vec::new();
    let mut i: usize = 0;
    while i < list.len()
        invariant
            i <= list@.len(),
            forall|c: ChannelId| #[trigger] out@.contains(c) <==> (exists|k: int| 0 <= k < i && list@[k] == c) && c != gone,
        decreases list@.len() - i,
    {
        let c = list[i];
        let ghost before = out@;
        if c.0 != gone.0 {
            out.push(c);
            proof {
                assert forall|x: ChannelId| out@.contains(x) <==> before.contains(x) || x == c by {
                    if out@.contains(x) && x != c {
                        let k = choose|k: int| 0 <= k < out@.len() && out@[k] == x;
                        assert(before[k] == x);
                    }
                    if before.contains(x) {
                        let k = choose|k: int| 0 <= k < before.len() && before[k] == x;
                        assert(out@[k] == x);
                    }
                    assert(out@[before.len() as int] == c);
                }
            }
        }
        proof {
            assert forall|x: ChannelId| #[trigger] out@.contains(x) <==> (exists|k: int| 0 <= k < i + 1 && list@[k] == x) && x != gone by {
                let in_prefix = exists|k: int| 0 <= k < i && list@[k] == x;
                let in_next = exists|k: int| 0 <= k < i + 1 && list@[k] == x;
                if x == c {
                    assert(list@[i as int] == x);
                }
                if in_next && x != c {
                    let k = choose|k: int| 0 <= k < i + 1 && list@[k] == x;
                    assert(k < i && list@[k] == x);
                }
                if in_prefix {
                    let k = choose|k: int| 0 <= k < i && list@[k] == x;
                    assert(0 <= k < i + 1 && list@[k] == x);
                }
                assert(in_next <==> in_prefix || x == c);
                assert(before.contains(x) <==> in_prefix && x != gone);
            }
        }
        i = i + 1;
    }
    out
}

fn holds_channel(list: &Vec<ChannelId>, c: ChannelId) -> (r: bool)
    ensures
        r == list@.contains(c),
{
    let mut i: usize = 0;
    while i < list.len()
        invariant
            i <= list@.len(),
            forall|j: int| 0 <= j < i ==> list@[j] != c,
        decreases list@.len() - i,
    {
        if list[i].0 == c.0 {
            return true;
        }
        i = i + 1;
    }
    false
}

impl App {
    /// The lines belonging to the channel on screen. Notices show in every channel.
    pub fn visible_lines(&self) -> (r: Vec<&Line>)
        ensures
            r@.len() == visible_of(self.lines@, self.viewing).len(),
            forall|i: int| 0 <= i < r@.len() ==> *(#[trigger] r@[i]) == visible_of(self.lines@, self.viewing)[i],
    {
        let mut out: Vec<&Line> = Vec::new();
        let mut i: usize = 0;
        while i < self.lines.len()
            invariant
                i <= self.lines@.len(),
                out@.len() == visible_of(self.lines@.take(i as int), self.viewing).len(),
                forall|k: int| 0 <= k < out@.len() ==> *(#[trigger] out@[k]) == visible_of(self.lines@.take(i as int), self.viewing)[k],
            decreases self.lines@.len() - i,
        {
            let line = &self.lines[i];
            assert(self.lines@.take(i + 1).drop_last() =~= self.lines@.take(i as int));
            let show = match line {
                Line::Chat(chat) => chat.channel.0 == self.viewing.0,
                Line::Notice { .. } => true,
            };
            if show {
                out.push(line);
            }
            i = i + 1;
        }
        assert(self.lines@.take(i as int) =~= self.lines@);
        out
    }

    /// Who sits in a voice channel, in roster order.
    pub fn peers_in(&self, channel: ChannelId) -> (r: Vec<&PeerInfo>)
        ensures
            r@.len() == peers_in_of(self.peers@, channel).len(),
            forall|i: int| 0 <= i < r@.len() ==> *(#[trigger] r@[i]) == peers_in_of(self.peers@, channel)[i],
    {
        let mut out: Vec<&PeerInfo> = Vec::new();
        let mut i: usize = 0;
        while i < self.peers.len()
            invariant
                i <= self.peers@.len(),
                out@.len() == peers_in_of(self.peers@.take(i as int), channel).len(),
                forall|k: int| 0 <= k < out@.len() ==> *(#[trigger] out@[k]) == peers_in_of(self.peers@.take(i as int), channel)[k],
            decreases self.peers@.len() - i,
        {
            let peer = &self.peers[i];
            assert(self.peers@.take(i + 1).drop_last() =~= self.peers@.take(i as int));
            let here = match peer.channel {
                Some(c) => c.0 == channel.0,
                None => false,
            };
            if here {
                out.push(peer);
            }
            i = i + 1;
        }
        assert(self.peers@.take(i as int) =~= self.peers@);
        out
    }

    /// The name shown for an identity: the one last seen on a roster, or its short id
    /// for someone never seen.
    pub fn name_of(&self, id: PeerId) -> (r: String)
        ensures
            r@ == (if self.names_v().contains_key(id) { self.names_v()[id] } else { id.short_spec() }),
    {
        let mut i: usize = 0;
        while i < self.names.len()
            invariant
                i <= self.names@.len(),
                forall|j: int| 0 <= j < i ==> (#[trigger] self.names@[j]).0 != id,
            decreases self.names@.len() - i,
        {
            if self.names[i].0.same(&id) {
                proof {
                    lemma_lookup_at(self.names@, id, i as int);
                }
                return self.names[i].1.clone();
            }
            i = i + 1;
        }
        proof {
            lemma_lookup_absent(self.names@, id);
        }
        id.short()
    }

    /// A channel's name, or "?" for one the room does not have.
    pub fn channel_name(&self, channel: ChannelId) -> (r: &str)
        ensures
            r@ == (if (channel.0 as int) < self.channels@.len() { self.channels@[channel.0 as int]@ } else { "?"@ }),
    {
        let index = channel.0 as usize;
        if index < self.channels.len() {
            self.channels[index].as_str()
        } else {
            "?"
        }
    }

    /// Moves the screen to the next (or previous) channel, wrapping round. Looking at a
    /// channel is what reading it means, so it stops being unread.
    pub fn view_next(&mut self, forward: bool)
        requires
            view_next_ok(*old(self), forward),
        ensures
            old(self).channels@.len() == 0 ==> *final(self) == *old(self),
            *final(self) == (App { viewing: final(self).viewing, unread: final(self).unread, ..*old(self) }),
            old(self).channels@.len() > 0 ==> {
                let count = (old(self).channels@.len() % 256) as int;
                &&& final(self).viewing == ChannelId(step_index(old(self).viewing.0 as int, count, forward) as u8)
                &&& forall|c: ChannelId| #[trigger] final(self).unread@.contains(c) <==> old(self).unread@.contains(c) && c
                    != final(self).viewing
                &&& final(self).lines == old(self).lines
                &&& final(self).voice == old(self).voice
            },
    {
        let len = self.channels.len();
        if len == 0 {
            return;
        }
        let count: u8 = (len % 256) as u8;
        let index = if forward {
            (self.viewing.0 + 1) % count
        } else {
            (self.viewing.0 + count - 1) % count
        };
        self.viewing = ChannelId(index);
        self.unread = without_channel(&self.unread, self.viewing);
    }

    /// Cycles through the sections of the settings screen.
    pub fn settings_next_section(&mut self, forward: bool)
        ensures
            final(self).settings_section == next_section(old(self).settings_section, forward),
            final(self).settings_error is None,
            *final(self) == (App { settings_section: final(self).settings_section, settings_error: None, ..*old(self) }),
            final(self).view_mode == old(self).view_mode,
            final(self).selected_input_idx == old(self).selected_input_idx,
            final(self).selected_output_idx == old(self).selected_output_idx,
    {
        let at: usize = match self.settings_section {
            SettingsSection::InputDevice => 0,
            SettingsSection::OutputDevice => 1,
            SettingsSection::MicTest => 2,
            SettingsSection::Typing => 3,
        };
        let step: usize = if forward { 1 } else { 3 };
        self.settings_section = match (at + step) % 4 {
            0 => SettingsSection::InputDevice,
            1 => SettingsSection::OutputDevice,
            2 => SettingsSection::MicTest,
            _ => SettingsSection::Typing,
        };
        self.settings_error = None;
    }

    /// Moves the highlight within the active section: through the devices in the two
    /// device sections, on to the next section elsewhere.
    #[verifier::rlimit(40)]
    pub fn settings_navigate_item(&mut self, forward: bool)
        requires
            navigate_ok(*old(self), forward),
        ensures
            *final(self) == navigated(*old(self), forward),
            final(self).settings_error is None,
            *final(self) == (App {
                settings_section: final(self).settings_section,
                selected_input_idx: final(self).selected_input_idx,
                selected_output_idx: final(self).selected_output_idx,
                settings_error: None,
                ..*old(self)
            }),
            final(self).view_mode == old(self).view_mode,
            match old(self).settings_section {
                SettingsSection::InputDevice => {
                    &&& final(self).settings_section == old(self).settings_section
                    &&& final(self).selected_output_idx == old(self).selected_output_idx
                    &&& final(self).selected_input_idx == (if old(self).input_devices@.len() == 0 {
                        old(self).selected_input_idx as int
                    } else {
                        step_index(old(self).selected_input_idx as int, old(self).input_devices@.len() as int, forward)
                    })
                },
                SettingsSection::OutputDevice => {
                    &&& final(self).settings_section == old(self).settings_section
                    &&& final(self).selected_input_idx == old(self).selected_input_idx
                    &&& final(self).selected_output_idx == (if old(self).output_devices@.len() == 0 {
                        old(self).selected_output_idx as int
                    } else {
                        step_index(old(self).selected_output_idx as int, old(self).output_devices@.len() as int, forward)
                    })
                },
                _ => {
                    &&& final(self).settings_section == next_section(old(self).settings_section, forward)
                    &&& final(self).selected_input_idx == old(self).selected_input_idx
                    &&& final(self).selected_output_idx == old(self).selected_output_idx
                },
            },
    {
        match self.settings_section {
            SettingsSection::InputDevice => {
                let len = self.input_devices.len();
                if len > 0 {
                    self.selected_input_idx = if forward {
                        (self.selected_input_idx + 1) % len
                    } else {
                        (self.selected_input_idx + len - 1) % len
                    };
                }
            },
            SettingsSection::OutputDevice => {
                let len = self.output_devices.len();
                if len > 0 {
                    self.selected_output_idx = if forward {
                        (self.selected_output_idx + 1) % len
                    } else {
                        (self.selected_output_idx + len - 1) % len
                    };
                }
            },
            SettingsSection::MicTest | SettingsSection::Typing => {
                self.settings_next_section(forward);
            },
        }
        self.settings_error = None;
    }

    /// The highlighted microphone.
    pub fn selected_input_device(&self) -> (r: Option<&AudioDeviceInfo>)
        ensures
            match r {
                Some(d) => self.selected_input_idx < self.input_devices@.len() && *d == self.input_devices@[self.selected_input_idx as int],
                None => self.selected_input_idx >= self.input_devices@.len(),
            },
    {
        if self.selected_input_idx < self.input_devices.len() {
            Some(&self.input_devices[self.selected_input_idx])
        } else {
            None
        }
    }

    /// The highlighted speaker.
    pub fn selected_output_device(&self) -> (r: Option<&AudioDeviceInfo>)
        ensures
            match r {
                Some(d) => self.selected_output_idx < self.output_devices@.len() && *d == self.output_devices@[self.selected_output_idx as int],
                None => self.selected_output_idx >= self.output_devices@.len(),
            },
    {
        if self.selected_output_idx < self.output_devices.len() {
            Some(&self.output_devices[self.selected_output_idx])
        } else {
            None
        }
    }

    /// Takes a fresh list of microphones and keeps the highlight on the right one.
    pub fn adopt_input_devices(&mut self, devices: Vec<AudioDeviceInfo>)
        ensures
            final(self).input_devices@ == devices@,
            final(self).selected_input_idx == adopted_index(devices@, match old(self).active_input_name {
                Some(n) => Some(n@),
                None => None,
            }, old(self).selected_input_idx),
            final(self).output_devices == old(self).output_devices,
            final(self).selected_output_idx == old(self).selected_output_idx,
    {
        let picked = adopt_index(&devices, &self.active_input_name, self.selected_input_idx);
        self.input_devices = devices;
        self.selected_input_idx = picked;
    }

    /// Takes a fresh list of speakers and keeps the highlight on the right one.
    pub fn adopt_output_devices(&mut self, devices: Vec<AudioDeviceInfo>)
        ensures
            final(self).output_devices@ == devices@,
            final(self).selected_output_idx == adopted_index(devices@, match old(self).active_output_name {
                Some(n) => Some(n@),
                None => None,
            }, old(self).selected_output_idx),
            final(self).input_devices == old(self).input_devices,
            final(self).selected_input_idx == old(self).selected_input_idx,
    {
        let picked = adopt_index(&devices, &self.active_output_name, self.selected_output_idx);
        self.output_devices = devices;
        self.selected_output_idx = picked;
    }

    /// Whether the microphone is open right now: never while muted, and in push-to-talk
    /// mode only while the key is held.
    pub fn mic_open(&self) -> (r: bool)
        ensures
            r == (!self.muted && (!self.ptt_mode || self.ptt_active)),
    {
        if self.muted {
            return false;
        }
        if self.ptt_mode {
            return self.ptt_active;
        }
        true
    }

    /// Takes the typed message and clears the field. Blank input sends nothing.
    pub fn take_input(&mut self) -> (r: Option<String>)
        ensures
            final(self).input@.len() == 0,
            trim(old(self).input@).len() > 0 ==> (r matches Some(text) && text@ == trim(old(self).input@)),
            trim(old(self).input@).len() == 0 ==> r is None,
            *final(self) == (App { input: final(self).input, ..*old(self) }),
    {
        let typed = chars_of(self.input.as_str());
        let kept = trim_chars(typed.as_slice());
        self.input = String::new();
        if kept.len() == 0 {
            None
        } else {
            Some(string_of(kept.as_slice()))
        }
    }

    /// Turns key clicks on or off.
    pub fn toggle_typing_clicks(&mut self)
        ensures
            final(self).typing_clicks == !old(self).typing_clicks,
            *final(self) == (App { typing_clicks: final(self).typing_clicks, ..*old(self) }),
    {
        self.typing_clicks = !self.typing_clicks;
    }
}

/// The first position of an identity in a list.
pub open spec fn position_of(ids: Seq<PeerId>, id: PeerId) -> Option<int> {
    if exists|i: int| 0 <= i < ids.len() && ids[i] == id {
        Some(choose|i: int| 0 <= i < ids.len() && ids[i] == id && forall|j: int| 0 <= j < i ==> ids[j] != id)
    } else {
        None
    }
}

/// Where the roster cursor lands: one row on (wrapping round) from whoever it was on,
/// or, when it was on nobody still here, the row at the edge it travels in from.
pub open spec fn next_selection(others: Seq<PeerId>, selected: Option<PeerId>, forward: bool) -> Option<PeerId> {
    if others.len() == 0 {
        None
    } else {
        let at = match selected {
            Some(id) => position_of(others, id),
            None => None,
        };
        Some(
            match at {
                Some(i) => others[step_index(i, others.len() as int, forward)],
                None => if forward {
                    others[0]
                } else {
                    others.last()
                },
            },
        )
    }
}

/// Whether moving the screen to the next channel stays within the arithmetic on a
/// channel index (a `u8`): the channel count as a `u8` is not zero, and one step from
/// the current channel does not pass 255.
pub open spec fn view_next_ok(app: App, forward: bool) -> bool {
    app.channels@.len() > 0 ==> {
        let count = app.channels@.len() % 256;
        count != 0 && (if forward { app.viewing.0 < 255 } else { app.viewing.0 + count <= 255 })
    }
}

/// The settings screen after the highlight moves: through the devices of a device
/// section (round the end), or on to the next section from the others.
pub open spec fn navigated(o: App, forward: bool) -> App {
    match o.settings_section {
        SettingsSection::InputDevice => App {
            selected_input_idx: if o.input_devices@.len() == 0 {
                o.selected_input_idx
            } else {
                step_index(o.selected_input_idx as int, o.input_devices@.len() as int, forward) as usize
            },
            settings_error: None,
            ..o
        },
        SettingsSection::OutputDevice => App {
            selected_output_idx: if o.output_devices@.len() == 0 {
                o.selected_output_idx
            } else {
                step_index(o.selected_output_idx as int, o.output_devices@.len() as int, forward) as usize
            },
            settings_error: None,
            ..o
        },
        _ => App { settings_section: next_section(o.settings_section, forward), settings_error: None, ..o },
    }
}

/// Whether moving the highlight in a device list stays within `usize` arithmetic.
pub open spec fn navigate_ok(app: App, forward: bool) -> bool {
    &&& app.settings_section == SettingsSection::InputDevice ==> (if forward {
        app.selected_input_idx < usize::MAX
    } else {
        app.selected_input_idx + app.input_devices@.len() <= usize::MAX
    })
    &&& app.settings_section == SettingsSection::OutputDevice ==> (if forward {
        app.selected_output_idx < usize::MAX
    } else {
        app.selected_output_idx + app.output_devices@.len() <= usize::MAX
    })
}

/// The settings-side fields, which events from the room leave alone.
pub open spec fn same_settings(a: App, b: App) -> bool {
    &&& a.invite_code == b.invite_code
    &&& a.input == b.input
    &&& a.ptt_mode == b.ptt_mode
    &&& a.ptt_active == b.ptt_active
    &&& a.status == b.status
    &&& a.view_mode == b.view_mode
    &&& a.settings_section == b.settings_section
    &&& a.input_devices == b.input_devices
    &&& a.output_devices == b.output_devices
    &&& a.selected_input_idx == b.selected_input_idx
    &&& a.selected_output_idx == b.selected_output_idx
    &&& a.active_input_name == b.active_input_name
    &&& a.active_output_name == b.active_output_name
    &&& a.typing_clicks == b.typing_clicks
    &&& a.mic_test == b.mic_test
    &&& a.fed_back == b.fed_back
    &&& a.settings_error == b.settings_error
}

/// The notice that brings the invite code back on screen.
pub open spec fn invite_notice(code: Seq<char>, copied: bool) -> Seq<char> {
    if copied {
        "invite code (copied to clipboard): "@ + code
    } else {
        "invite code: "@ + code
    }
}

/// What adding one line to the pane leaves there.
pub open spec fn pushed(lines: Seq<Line>, line: Line) -> Seq<Line> {
    if lines.len() + 1 > VISIBLE_HISTORY {
        lines.push(line).skip(lines.len() + 1 - VISIBLE_HISTORY)
    } else {
        lines.push(line)
    }
}

fn on_roster(peers: &Vec<PeerInfo>, id: &PeerId) -> (r: bool)
    ensures
        r == peers@.map_values(|p: PeerInfo| p.id).contains(*id),
{
    let ghost ids = peers@.map_values(|p: PeerInfo| p.id);
    let mut i: usize = 0;
    while i < peers.len()
        invariant
            i <= peers@.len(),
            ids == peers@.map_values(|p: PeerInfo| p.id),
            forall|j: int| 0 <= j < i ==> ids[j] != *id,
        decreases peers@.len() - i,
    {
        if peers[i].id.same(id) {
            assert(ids[i as int] == *id);
            return true;
        }
        i = i + 1;
    }
    false
}

fn position(ids: &Vec<PeerId>, id: &PeerId) -> (r: Option<usize>)
    ensures
        match r {
            Some(i) => i < ids@.len() && position_of(ids@, *id) == Some(i as int),
            None => position_of(ids@, *id) is None,
        },
{
    let mut i: usize = 0;
    while i < ids.len()
        invariant
            i <= ids@.len(),
            forall|j: int| 0 <= j < i ==> ids@[j] != *id,
        decreases ids@.len() - i,
    {
        if ids[i].same(id) {
            let ghost c = choose|k: int| 0 <= k < ids@.len() && ids@[k] == *id && forall|j: int| 0 <= j < k ==> ids@[j] != *id;
            assert(c == i) by {
                if c < i {
                    assert(ids@[c] != *id);
                }
                if c > i {
                    assert(!(ids@[i as int] != *id));
                }
            }
            return Some(i);
        }
        i = i + 1;
    }
    None
}

impl App {
    /// Everyone whose volume can be changed, in roster order.
    pub fn adjustable(&self) -> (r: Vec<PeerId>)
        ensures
            r@ == others_of(self.peers@, self.me),
    {
        let mut out: Vec<PeerId> = Vec::new();
        let mut i: usize = 0;
        while i < self.peers.len()
            invariant
                i <= self.peers@.len(),
                out@ == others_of(self.peers@.take(i as int), self.me),
            decreases self.peers@.len() - i,
        {
            assert(self.peers@.take(i + 1).drop_last() =~= self.peers@.take(i as int));
            let id = self.peers[i].id;
            if !id.same(&self.me) {
                out.push(id);
            }
            i = i + 1;
        }
        assert(self.peers@.take(i as int) =~= self.peers@);
        out
    }

    /// Moves the roster cursor one row. It never lands on yourself.
    pub fn select_peer(&mut self, forward: bool)
        ensures
            final(self).selected_peer == next_selection(others_of(old(self).peers@, old(self).me), old(self).selected_peer, forward),
            final(self).selected_peer != Some(old(self).me),
            final(self).peers == old(self).peers,
            final(self).me == old(self).me,
            *final(self) == (App { selected_peer: final(self).selected_peer, ..*old(self) }),
    {
        let others = self.adjustable();
        proof {
            lemma_others_not_me(self.peers@, self.me);
        }
        let len = others.len();
        if len == 0 {
            self.selected_peer = None;
            return;
        }
        let at: Option<usize> = match self.selected_peer {
            Some(current) => position(&others, &current),
            None => None,
        };
        let chosen = match at {
            Some(index) => {
                if forward {
                    if index + 1 == len {
                        others[0]
                    } else {
                        others[index + 1]
                    }
                } else {
                    if index == 0 {
                        others[len - 1]
                    } else {
                        others[index - 1]
                    }
                }
            },
            None => if forward {
                others[0]
            } else {
                others[len - 1]
            },
        };
        proof {
            match at {
                Some(index) => {
                    if forward {
                        if index + 1 == len {
                            assert((index + 1) % (len as int) == 0) by (nonlinear_arith)
                                requires index + 1 == len, len > 0;
                        } else {
                            assert((index + 1) % (len as int) == index + 1) by (nonlinear_arith)
                                requires index + 1 < len;
                        }
                    } else {
                        if index == 0 {
                            assert((index + len - 1) % (len as int) == len - 1) by (nonlinear_arith)
                                requires index == 0, len > 0;
                        } else {
                            assert((index + len - 1) % (len as int) == index - 1) by (nonlinear_arith)
                                requires 0 < index < len;
                        }
                    }
                },
                None => {},
            }
        }
        self.selected_peer = Some(chosen);
    }

    /// Stops the microphone test.
    pub fn stop_mic_test(&mut self)
        ensures
            *final(self) == (App { mic_test: MicTest::Off, ..*old(self) }),
    {
        self.mic_test = MicTest::Off;
    }

    /// Starts a recorded test (record, then play back), or stops a test already
    /// running. Returns whether a recording started, so that its clock can be set.
    ///
    /// Recording and playing are separate stages on purpose: while the microphone is
    /// open the speaker stays silent, so there is no loop for a laptop to close.
    pub fn toggle_recorded_test(&mut self) -> (started: bool)
        ensures
            old(self).mic_test == MicTest::Off ==> started && final(self).mic_test == MicTest::Recording && !final(self).fed_back,
            old(self).mic_test != MicTest::Off ==> !started && final(self).mic_test == MicTest::Off && final(self).fed_back == old(self).fed_back,
            *final(self) == (App { mic_test: final(self).mic_test, fed_back: final(self).fed_back, ..*old(self) }),
    {
        match self.mic_test {
            MicTest::Off => {
                self.fed_back = false;
                self.mic_test = MicTest::Recording;
                true
            },
            _ => {
                self.stop_mic_test();
                false
            },
        }
    }

    /// Turns live monitoring on or off. Safe on headphones; on a laptop the microphone
    /// hears the speaker and the two feed each other.
    pub fn toggle_monitor(&mut self)
        ensures
            old(self).mic_test == MicTest::Monitoring ==> final(self).mic_test == MicTest::Off && final(self).fed_back == old(self).fed_back,
            old(self).mic_test != MicTest::Monitoring ==> final(self).mic_test == MicTest::Monitoring && !final(self).fed_back,
            *final(self) == (App { mic_test: final(self).mic_test, fed_back: final(self).fed_back, ..*old(self) }),
    {
        match self.mic_test {
            MicTest::Monitoring => self.stop_mic_test(),
            _ => {
                self.fed_back = false;
                self.mic_test = MicTest::Monitoring;
            },
        }
    }

    /// Moves a timed test on once its stage has run out: a recording turns into its
    /// playback, and anything else ends. Returns whether a new timed stage began.
    pub fn finish_mic_test_stage(&mut self) -> (playing: bool)
        ensures
            old(self).mic_test == MicTest::Recording ==> playing && final(self).mic_test == MicTest::Playing,
            old(self).mic_test != MicTest::Recording ==> !playing && final(self).mic_test == MicTest::Off,
            final(self).fed_back == old(self).fed_back,
            *final(self) == (App { mic_test: final(self).mic_test, ..*old(self) }),
    {
        match self.mic_test {
            MicTest::Recording => {
                self.mic_test = MicTest::Playing;
                true
            },
            _ => {
                self.stop_mic_test();
                false
            },
        }
    }

    /// Cuts off a monitor that has started feeding back, and remembers why.
    pub fn cut_off_feedback(&mut self)
        ensures
            final(self).mic_test == MicTest::Off,
            final(self).fed_back,
            *final(self) == (App { mic_test: MicTest::Off, fed_back: true, ..*old(self) }),
    {
        self.stop_mic_test();
        self.fed_back = true;
    }

    /// Switches between the chat and the settings screen. Returns whether the settings
    /// screen opened, so that the device lists can be refreshed; leaving it stops any
    /// microphone test.
    pub fn toggle_settings(&mut self) -> (opened: bool)
        ensures
            old(self).view_mode == ViewMode::Chat ==> opened && final(self).view_mode == ViewMode::Settings
                && final(self).mic_test == old(self).mic_test,
            old(self).view_mode == ViewMode::Settings ==> !opened && final(self).view_mode == ViewMode::Chat
                && final(self).mic_test == MicTest::Off,
            final(self).settings_error is None,
            final(self).settings_section == old(self).settings_section,
            *final(self) == (App {
                view_mode: final(self).view_mode,
                mic_test: final(self).mic_test,
                settings_error: None,
                ..*old(self)
            }),
    {
        match self.view_mode {
            ViewMode::Chat => {
                self.view_mode = ViewMode::Settings;
                self.settings_error = None;
                true
            },
            ViewMode::Settings => {
                self.view_mode = ViewMode::Chat;
                self.stop_mic_test();
                self.settings_error = None;
                false
            },
        }
    }

    /// Puts a line from the room itself on screen.
    pub fn notice(&mut self, text: String, at: u64)
        ensures
            final(self).lines@ == pushed(old(self).lines@, Line::Notice { text, at }),
            *final(self) == (App { lines: final(self).lines, ..*old(self) }),
    {
        self.push(Line::Notice { text, at });
    }

    /// Takes in the audio engine's running count of dropouts. Returns whether it rose,
    /// so that the string can fray for a while.
    pub fn note_dropouts(&mut self, total: u64) -> (rose: bool)
        ensures
            rose == (total > old(self).audio_dropouts),
            *final(self) == (App { audio_dropouts: total, ..*old(self) }),
    {
        let rose = total > self.audio_dropouts;
        self.audio_dropouts = total;
        rose
    }

    /// Puts the full invite code back on screen.
    pub fn show_invite_code(&mut self, copied: bool, at: u64)
        ensures
            final(self).lines@.len() > 0,
            final(self).lines@.last() matches Line::Notice { text, at: when } && text@ == invite_notice(old(self).invite_code@, copied) && when == at,
            final(self).lines@ == pushed(old(self).lines@, final(self).lines@.last()),
            *final(self) == (App { lines: final(self).lines, ..*old(self) }),
    {
        let mut text = if copied {
            String::from_str("invite code (copied to clipboard): ")
        } else {
            String::from_str("invite code: ")
        };
        text.append(self.invite_code.as_str());
        let ghost said = text@;
        self.push(Line::Notice { text, at });
    }

    /// Takes in what the session reports. `at` is the time (seconds since the epoch)
    /// stamped on a notice.
    #[verifier::rlimit(60)]
    #[verifier::spinoff_prover]
    pub fn apply(&mut self, event: Event, at: u64)
        ensures
            same_settings(*old(self), *final(self)),
            final(self).viewing == old(self).viewing,
            !old(self).unread@.contains(old(self).viewing) ==> !final(self).unread@.contains(final(self).viewing),
            match event {
                Event::Welcome { me, room } => {
                    &&& final(self).me == me
                    &&& final(self).room_name == room.room_name
                    &&& final(self).channels == room.channels
                    &&& final(self).peers == room.peers
                    &&& final(self).lines@ == room.recent_chat@.map_values(|c: ChatLine| Line::Chat(c))
                    &&& final(self).names_v() == remembered(old(self).names_v(), room.peers@)
                    &&& match find_peer(room.peers@, me) {
                        Some(mine) => final(self).voice == mine.channel && final(self).muted == mine.muted
                            && final(self).deafened == mine.deafened,
                        None => final(self).voice == old(self).voice && final(self).muted == old(self).muted
                            && final(self).deafened == old(self).deafened,
                    }
                    &&& final(self).unread == old(self).unread
                    &&& final(self).selected_peer == old(self).selected_peer
                    &&& final(self).ended == old(self).ended
                    &&& *final(self) == (App {
                        me: final(self).me,
                        room_name: final(self).room_name,
                        channels: final(self).channels,
                        peers: final(self).peers,
                        names: final(self).names,
                        lines: final(self).lines,
                        voice: final(self).voice,
                        muted: final(self).muted,
                        deafened: final(self).deafened,
                        ..*old(self)
                    })
                },
                Event::Roster(peers) => {
                    &&& final(self).me == old(self).me
                    &&& final(self).peers == peers
                    &&& final(self).names_v() == remembered(old(self).names_v(), peers@)
                    &&& match find_peer(peers@, old(self).me) {
                        Some(mine) => final(self).voice == mine.channel && final(self).muted == mine.muted
                            && final(self).deafened == mine.deafened,
                        None => final(self).voice == old(self).voice && final(self).muted == old(self).muted
                            && final(self).deafened == old(self).deafened,
                    }
                    &&& final(self).selected_peer == match old(self).selected_peer {
                        Some(id) => if peers@.map_values(|p: PeerInfo| p.id).contains(id) {
                            Some(id)
                        } else {
                            None
                        },
                        None => None,
                    }
                    &&& final(self).lines == old(self).lines
                    &&& final(self).unread == old(self).unread
                    &&& final(self).ended == old(self).ended
                    &&& final(self).room_name == old(self).room_name
                    &&& final(self).channels == old(self).channels
                    &&& *final(self) == (App {
                        peers: final(self).peers,
                        names: final(self).names,
                        voice: final(self).voice,
                        muted: final(self).muted,
                        deafened: final(self).deafened,
                        selected_peer: final(self).selected_peer,
                        ..*old(self)
                    })
                },
                Event::Chat(line) => {
                    &&& final(self).lines@ == pushed(old(self).lines@, Line::Chat(line))
                    &&& forall|c: ChannelId| #[trigger] final(self).unread@.contains(c) <==> old(self).unread@.contains(c) || (
                        c == line.channel && line.channel != old(self).viewing && line.from != old(self).me)
                    &&& final(self).me == old(self).me
                    &&& final(self).peers == old(self).peers
                    &&& final(self).names_v() == old(self).names_v()
                    &&& final(self).voice == old(self).voice
                    &&& final(self).selected_peer == old(self).selected_peer
                    &&& final(self).ended == old(self).ended
                    &&& *final(self) == (App { lines: final(self).lines, unread: final(self).unread, ..*old(self) })
                },
                Event::Notice(text) => {
                    &&& final(self).lines@ == pushed(old(self).lines@, Line::Notice { text, at })
                    &&& final(self).unread == old(self).unread
                    &&& final(self).me == old(self).me
                    &&& final(self).peers == old(self).peers
                    &&& final(self).names_v() == old(self).names_v()
                    &&& final(self).voice == old(self).voice
                    &&& final(self).selected_peer == old(self).selected_peer
                    &&& final(self).ended == old(self).ended
                    &&& *final(self) == (App { lines: final(self).lines, ..*old(self) })
                },
                Event::Disconnected(reason) => {
                    &&& final(self).ended == Some(reason)
                    &&& final(self).lines == old(self).lines
                    &&& final(self).unread == old(self).unread
                    &&& final(self).me == old(self).me
                    &&& final(self).peers == old(self).peers
                    &&& final(self).names_v() == old(self).names_v()
                    &&& final(self).voice == old(self).voice
                    &&& *final(self) == (App { ended: Some(reason), ..*old(self) })
                },
            },
    {
        match event {
            Event::Welcome { me, room } => {
                self.me = me;
                self.room_name = room.room_name;
                self.channels = room.channels;
                let peers = room.peers;
                self.remember_names(&peers);
                self.peers = peers;
                let ghost recent = room.recent_chat@;
                let mut lines: Vec<Line> = Vec::new();
                for line in it: room.recent_chat
                    invariant
                        it.seq() == recent,
                        lines@ == recent.take(it.index() as int).map_values(|c: ChatLine| Line::Chat(c)),
                {
                    lines.push(Line::Chat(line));
                    assert(lines@ =~= recent.take(it.index() + 1).map_values(|c: ChatLine| Line::Chat(c)));
                }
                assert(recent.take(recent.len() as int) =~= recent);
                self.lines = lines;
                self.sync_self_from_roster();
            },
            Event::Roster(peers) => {
                self.remember_names(&peers);
                self.peers = peers;
                self.sync_self_from_roster();
                if let Some(selected) = self.selected_peer {
                    if !on_roster(&self.peers, &selected) {
                        self.selected_peer = None;
                    }
                }
            },
            Event::Chat(line) => {
                if line.channel.0 != self.viewing.0 && !line.from.same(&self.me) && !holds_channel(&self.unread, line.channel) {
                    let ghost before = self.unread@;
                    self.unread.push(line.channel);
                    proof {
                        assert forall|c: ChannelId| self.unread@.contains(c) <==> before.contains(c) || c == line.channel by {
                            if self.unread@.contains(c) && c != line.channel {
                                let k = choose|k: int| 0 <= k < self.unread@.len() && self.unread@[k] == c;
                                assert(before[k] == c);
                            }
                            if before.contains(c) {
                                let k = choose|k: int| 0 <= k < before.len() && before[k] == c;
                                assert(self.unread@[k] == c);
                            }
                            assert(self.unread@[before.len() as int] == line.channel);
                        }
                    }
                }
                self.push(Line::Chat(line));
            },
            Event::Notice(text) => {
                self.push(Line::Notice { text, at });
            },
            Event::Disconnected(reason) => {
                self.ended = Some(reason);
            },
        }
    }
}

} // verus!
verus! {

/// The pane never holds more than `VISIBLE_HISTORY` lines once a line has been added,
/// and the line just added is the last one shown.
pub proof fn lemma_pane_is_bounded(lines: Seq<Line>, line: Line)
    ensures
        pushed(lines, line).len() <= VISIBLE_HISTORY,
        pushed(lines, line).last() == line,
{
}

/// A step back undoes a step forward, and a step forward undoes a step back: Tab then
/// Shift+Tab lands on the channel (or device) where it started.
pub proof fn lemma_a_step_back_undoes_a_step(index: int, len: int, forward: bool)
    requires
        0 <= index < len,
    ensures
        step_index(step_index(index, len, forward), len, !forward) == index,
        0 <= step_index(index, len, forward) < len,
{
    if forward {
        if index + 1 < len {
            assert((index + 1) % len == index + 1) by (nonlinear_arith)
                requires
                    0 <= index + 1 < len,
            ;
            assert((index + 1 + len - 1) % len == index) by (nonlinear_arith)
                requires
                    0 <= index < len,
            ;
        } else {
            assert((index + 1) % len == 0) by (nonlinear_arith)
                requires
                    index + 1 == len,
                    len > 0,
            ;
            assert((0 + len - 1) % len == index) by (nonlinear_arith)
                requires
                    index + 1 == len,
                    len > 0,
            ;
        }
    } else {
        if index > 0 {
            assert((index + len - 1) % len == index - 1) by (nonlinear_arith)
                requires
                    0 < index < len,
            ;
            assert((index - 1 + 1) % len == index) by (nonlinear_arith)
                requires
                    0 < index < len,
            ;
        } else {
            assert((index + len - 1) % len == len - 1) by (nonlinear_arith)
                requires
                    index == 0,
                    len > 0,
            ;
            assert((len - 1 + 1) % len == index) by (nonlinear_arith)
                requires
                    index == 0,
                    len > 0,
            ;
        }
    }
}

/// Moving back a section undoes moving on a section, in both directions.
pub proof fn lemma_a_section_back_undoes_a_section(section: SettingsSection, forward: bool)
    ensures
        next_section(next_section(section, forward), !forward) == section,
{
}

proof fn lemma_position_of_distinct(ids: Seq<PeerId>, j: int)
    requires
        ids.no_duplicates(),
        0 <= j < ids.len(),
    ensures
        position_of(ids, ids[j]) == Some(j),
{
    let id = ids[j];
    assert(exists|i: int| 0 <= i < ids.len() && ids[i] == id);
    assert forall|k: int| 0 <= k < j implies ids[k] != id by {
        if ids[k] == id {
            assert(ids[k] == ids[j]);
        }
    }
    let i = choose|i: int| 0 <= i < ids.len() && ids[i] == id && forall|k: int| 0 <= k < i ==> ids[k] != id;
    assert(ids[i] == ids[j]);
}

/// On a roster where nobody appears twice, the cursor moved one way and then the other
/// comes back to the person it was on.
pub proof fn lemma_the_cursor_comes_back(others: Seq<PeerId>, selected: PeerId, forward: bool)
    requires
        others.no_duplicates(),
        others.contains(selected),
    ensures
        next_selection(others, next_selection(others, Some(selected), forward), !forward) == Some(selected),
{
    let j = choose|j: int| 0 <= j < others.len() && others[j] == selected;
    lemma_position_of_distinct(others, j);
    let n = others.len() as int;
    lemma_a_step_back_undoes_a_step(j, n, forward);
    let k = step_index(j, n, forward);
    lemma_position_of_distinct(others, k);
}

} // verus!
