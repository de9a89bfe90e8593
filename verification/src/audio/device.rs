//! Device choice: which microphone and speaker to open, what to fall back on, and what
//! to tell the room when a device goes missing or comes back.
//!
//! The streams themselves, and the driver calls that open them, stay outside the
//! library; what they need decided is decided here, from names.
use std::sync::atomic::AtomicU64;

use vstd::prelude::*;
use vstd::string::StringExecFns;

use crate::text::{decimal, decimal_string};
use crate::ui::layout::pad;
use crate::ui::screen::pad_spec;

verus! {

/// Information about a detected audio hardware device.
#[derive(Debug, Clone, PartialEq, Eq)]
pub struct AudioDeviceInfo {
    pub name: String,
    pub sample_rate: u32,
    pub channels: u16,
    pub is_default: bool,
    pub is_supported: bool,
}

/// Counters the real-time callbacks report to the outside world.
pub struct AudioHealth {
    /// The speaker found no data: an audible dropout.
    pub underruns: AtomicU64,
    /// Microphone data overflowed the buffer: captured audio was dropped.
    pub overruns: AtomicU64,
}

impl Default for AudioHealth {
    /// Both counters at zero.
    fn default() -> AudioHealth {
        AudioHealth { underruns: AtomicU64::new(0), overruns: AtomicU64::new(0) }
    }
}

impl AudioHealth {
    /// The dropouts so far. The callbacks count on other threads, so nothing is known of
    /// the number but its type.
    pub fn underruns(&self) -> u64 {
        self.underruns.load(std::sync::atomic::Ordering::Relaxed)
    }

    /// The captured samples dropped so far.
    pub fn overruns(&self) -> u64 {
        self.overruns.load(std::sync::atomic::Ordering::Relaxed)
    }
}

/// Which end of the audio a piece of news is about.
#[derive(Debug, Clone, Copy, PartialEq, Eq, Structural)]
pub enum Side {
    Microphone,
    Speaker,
}

impl Side {
    pub open spec fn name_spec(self) -> Seq<char> {
        match self {
            Side::Microphone => "microphone"@,
            Side::Speaker => "speaker"@,
        }
    }

    pub fn name(self) -> (r: &'static str)
        ensures
            r@ == self.name_spec(),
    {
        match self {
            Side::Microphone => "microphone",
            Side::Speaker => "speaker",
        }
    }
}

/// A stream the driver took away, and what came of trying to get it back.
#[derive(Debug, Clone, PartialEq, Eq)]
pub struct Recovered {
    pub side: Side,
    /// The device it reopened on, or `None` when it could not be reopened at all.
    pub device: Option<String>,
}

/// Which device to use, and how hard to insist on it.
#[derive(Debug, Clone, PartialEq, Eq)]
pub enum Wanted {
    /// Whatever the system calls default.
    Default,
    /// Named on the command line. The user typed it, so not finding it is an error.
    Named(String),
    /// Remembered from last time. Hardware gets unplugged, so not finding it is
    /// ordinary and we fall back to the default.
    Remembered(String),
}

impl Default for Wanted {
    fn default() -> (r: Wanted)
        ensures
            r is Default,
    {
        Wanted::Default
    }
}

impl Wanted {
    /// A device typed on the command line outranks one remembered from last time.
    pub fn pick(named: Option<String>, remembered: Option<String>) -> (r: Wanted)
        ensures
            match (named, remembered) {
                (Some(name), _) => r == Wanted::Named(name),
                (None, Some(name)) => r == Wanted::Remembered(name),
                (None, None) => r == Wanted::Default,
            },
    {
        match (named, remembered) {
            (Some(name), _) => Wanted::Named(name),
            (None, Some(name)) => Wanted::Remembered(name),
            (None, None) => Wanted::Default,
        }
    }
}

/// Which devices to use.
#[derive(Debug, Clone)]
pub struct DeviceChoice {
    pub input: Wanted,
    pub output: Wanted,
}

impl Default for DeviceChoice {
    fn default() -> (r: DeviceChoice)
        ensures
            r.input is Default && r.output is Default,
    {
        DeviceChoice { input: Wanted::Default, output: Wanted::Default }
    }
}

/// Whether `open`, asked for the device named `name` (or for the default, `None`),
/// may have come back with `result`.
pub open spec fn opened_as<E, F: Fn(Option<&str>) -> Result<String, E>>(
    open: F,
    name: Option<Seq<char>>,
    result: Result<String, E>,
) -> bool {
    match name {
        None => call_ensures(open, (None,), result),
        Some(n) => exists|s: &str| s@ == n && #[trigger] call_ensures(open, (Some(s),), result),
    }
}

/// Opens the wanted device through `open`, which takes a name to look for (or `None`
/// for the system default) and gives back the name of the device it opened.
///
/// A device named on the command line is a demand: not finding it is an error,
/// because the user typed it. A device remembered from last time is a preference
/// (hardware gets unplugged) and losing every bit of audio over a headset that is not
/// on the desk today is far worse than quietly using the built-in one. Returns the
/// device it opened, and the name it was looking for when it had to give up on it.
pub fn open_wanted<E, F: Fn(Option<&str>) -> Result<String, E>>(wanted: &Wanted, open: F) -> (r: Result<(String, Option<String>), E>)
    requires
        forall|name: Option<&str>| open.requires((name,)),
    ensures
        match wanted {
            Wanted::Default => match r {
                Ok((opened, lost)) => lost is None && opened_as(open, None, Ok(opened)),
                Err(e) => opened_as(open, None, Err(e)),
            },
            Wanted::Named(name) => match r {
                Ok((opened, lost)) => lost is None && opened_as(open, Some(name@), Ok(opened)),
                Err(e) => opened_as(open, Some(name@), Err(e)),
            },
            Wanted::Remembered(name) => match r {
                Ok((opened, None)) => opened_as(open, Some(name@), Ok(opened)),
                Ok((opened, Some(lost))) => {
                    &&& lost@ == name@
                    &&& exists|e: E| opened_as(open, Some(name@), Err(e))
                    &&& opened_as(open, None, Ok(opened))
                },
                Err(e) => {
                    &&& exists|first: E| opened_as(open, Some(name@), Err(first))
                    &&& opened_as(open, None, Err(e))
                },
            },
        },
{
    match wanted {
        Wanted::Default => match open(None) {
            Ok(opened) => Ok((opened, None)),
            Err(e) => Err(e),
        },
        Wanted::Named(name) => match open(Some(name.as_str())) {
            Ok(opened) => Ok((opened, None)),
            Err(e) => Err(e),
        },
        Wanted::Remembered(name) => {
            let asked = name.as_str();
            match open(Some(asked)) {
                Ok(opened) => Ok((opened, None)),
                Err(first) => {
                    assert(opened_as(open, Some(name@), Err(first)));
                    match open(None) {
                        Ok(opened) => Ok((opened, Some(name.clone()))),
                        Err(e) => Err(e),
                    }
                },
            }
        },
    }
}

/// Tries to get a lost stream back: on the device it was on, and failing that on the
/// default. The device it was on may itself be what disappeared.
pub fn recover_side<E, F: Fn(Option<&str>) -> Result<String, E>>(side: Side, active: Option<String>, reopen: F) -> (r: Recovered)
    requires
        forall|name: Option<&str>| reopen.requires((name,)),
    ensures
        r.side == side,
        match r.device {
            Some(device) => match active {
                Some(name) => opened_as(reopen, Some(name@), Ok(device)) || (
                    (exists|e: E| opened_as(reopen, Some(name@), Err(e))) && opened_as(reopen, None, Ok(device))),
                None => opened_as(reopen, None, Ok(device)),
            },
            None => (match active {
                Some(name) => exists|e: E| opened_as(reopen, Some(name@), Err(e)),
                None => true,
            }) && exists|e: E| opened_as(reopen, None, Err(e)),
        },
{
    let first = match &active {
        Some(name) => reopen(Some(name.as_str())),
        None => reopen(None),
    };
    match first {
        Ok(device) => Recovered { side, device: Some(device) },
        Err(e) => {
            match &active {
                Some(name) => assert(opened_as(reopen, Some(name@), Err(e))),
                None => assert(opened_as(reopen, None, Err(e))),
            }
            match reopen(None) {
                Ok(device) => Recovered { side, device: Some(device) },
                Err(e2) => {
                    assert(opened_as(reopen, None, Err(e2)));
                    Recovered { side, device: None }
                },
            }
        },
    }
}

/// The line the room is shown for a remembered device that was not plugged in.
pub open spec fn missing_note_spec(missing: Seq<char>, using: Option<Seq<char>>) -> Seq<char> {
    match using {
        Some(device) => missing + " is not here — using "@ + device,
        None => missing + " is not here"@,
    }
}

pub fn missing_note(missing: &str, using: Option<&str>) -> (r: String)
    ensures
        r@ == missing_note_spec(missing@, match using {
            Some(u) => Some(u@),
            None => None,
        }),
{
    let mut note = missing.to_owned();
    match using {
        Some(device) => {
            note.append(" is not here — using ");
            note.append(device);
        },
        None => note.append(" is not here"),
    }
    note
}

/// What `str::to_lowercase` gives: Unicode's full lowercase mapping of each character.
pub uninterp spec fn unicode_lowercase(s: Seq<char>) -> Seq<char>;

/// `str::to_lowercase`.
#[verifier::external_body]
fn lowercase(s: &str) -> (r: String)
    ensures
        r@ == unicode_lowercase(s@),
{
    s.to_lowercase()
}

/// `needle` occurs somewhere in `hay`, as `str::contains` finds it.
pub open spec fn occurs_in(needle: Seq<char>, hay: Seq<char>) -> bool {
    exists|i: int| 0 <= i <= hay.len() - needle.len() && #[trigger] hay.subrange(i, i + needle.len()) == needle
}

fn occurs_at(needle: &Vec<char>, hay: &Vec<char>, at: usize) -> (r: bool)
    requires
        at + needle@.len() <= hay@.len(),
    ensures
        r == (hay@.subrange(at as int, at + needle@.len()) == needle@),
{
    let length = hay.len();
    let mut k: usize = 0;
    while k < needle.len()
        invariant
            k <= needle@.len(),
            at + needle@.len() <= hay@.len(),
            hay@.len() == length,
            forall|j: int| 0 <= j < k ==> hay@[at + j] == needle@[j],
        decreases needle@.len() - k,
    {
        if hay[at + k] != needle[k] {
            assert(hay@.subrange(at as int, at + needle@.len())[k as int] != needle@[k as int]);
            return false;
        }
        k = k + 1;
    }
    assert(hay@.subrange(at as int, at + needle@.len()) =~= needle@);
    true
}

fn occurs(needle: &Vec<char>, hay: &Vec<char>) -> (r: bool)
    ensures
        r == occurs_in(needle@, hay@),
{
    if needle.len() > hay.len() {
        return false;
    }
    let last = hay.len() - needle.len();
    let mut at: usize = 0;
    loop
        invariant
            last == hay@.len() - needle@.len(),
            at <= last,
            forall|i: int| 0 <= i < at ==> #[trigger] hay@.subrange(i, i + needle@.len()) != needle@,
        decreases last - at,
    {
        if occurs_at(needle, hay, at) {
            return true;
        }
        if at == last {
            return false;
        }
        at = at + 1;
    }
}

/// Whether a device name answers to what the user typed: case-insensitive, and any
/// part of the name will do.
pub open spec fn answers_to(name: Seq<char>, wanted: Seq<char>) -> bool {
    occurs_in(unicode_lowercase(wanted), unicode_lowercase(name))
}

/// Picks a device by name: the first of `names` that answers to `wanted`. A device
/// whose name could not be read (`None`) never matches.
pub fn pick(names: &[Option<String>], wanted: &str) -> (r: Option<usize>)
    ensures
        match r {
            Some(i) => i < names@.len() && (names@[i as int] matches Some(n) && answers_to(n@, wanted@)) && forall|j: int|
                0 <= j < i ==> !(#[trigger] names@[j] matches Some(m) && answers_to(m@, wanted@)),
            None => forall|j: int| 0 <= j < names@.len() ==> !(#[trigger] names@[j] matches Some(m) && answers_to(m@, wanted@)),
        },
{
    let lowered = lowercase(wanted);
    let needle = crate::text::chars_of(lowered.as_str());
    let mut i: usize = 0;
    while i < names.len()
        invariant
            i <= names@.len(),
            needle@ == unicode_lowercase(wanted@),
            forall|j: int| 0 <= j < i ==> !(#[trigger] names@[j] matches Some(m) && answers_to(m@, wanted@)),
        decreases names@.len() - i,
    {
        if let Some(name) = &names[i] {
            let hay = crate::text::chars_of(lowercase(name.as_str()).as_str());
            if occurs(&needle, &hay) {
                return Some(i);
            }
        }
        i = i + 1;
    }
    None
}

// ── The device list of `tincan devices` ─────────────────────────────────────────

/// One device as the driver describes it: its name, when it has one, and its default
/// format (sample rate in Hz, channels), when it reports one.
pub struct DeviceListing {
    pub name: Option<String>,
    pub format: Option<(u32, u16)>,
}

/// A device's line: its name, what it runs at, and whether it is the one you get by
/// default, in three columns.
pub open spec fn listing_line(entry: DeviceListing, default: Option<String>) -> Seq<char> {
    let name = match entry.name {
        Some(n) => n@,
        None => "(unnamed)"@,
    };
    let rate = match entry.format {
        Some((hz, ch)) => decimal((hz / 1000) as nat) + " kHz · "@ + decimal(ch as nat) + " ch"@,
        None => "reports no format"@,
    };
    let mark = if default matches Some(d) && d@ == name { "default"@ } else { Seq::empty() };
    "    "@ + pad_spec(name, 38) + "  "@ + pad_spec(rate, 16) + "  "@ + mark + "\n"@
}

/// The lines of a list of devices, one after the other.
pub open spec fn listing_lines(entries: Seq<DeviceListing>, default: Option<String>) -> Seq<char>
    decreases entries.len(),
{
    if entries.len() == 0 {
        Seq::empty()
    } else {
        listing_lines(entries.drop_last(), default) + listing_line(entries.last(), default)
    }
}

/// The report: the microphones, the speakers, and the reassurance that every rate is
/// resampled.
pub open spec fn report_spec(
    default_in: Option<String>,
    inputs: Seq<DeviceListing>,
    default_out: Option<String>,
    outputs: Seq<DeviceListing>,
) -> Seq<char> {
    "\n  MICROPHONES\n"@ + listing_lines(inputs, default_in) + "\n  SPEAKERS\n"@ + listing_lines(outputs, default_out)
        + "\n  Every rate is resampled — 16 kHz Bluetooth headsets included.\n"@
}

fn listing_line_of(entry: &DeviceListing, default: &Option<String>) -> (r: String)
    ensures
        r@ == listing_line(*entry, *default),
{
    proof {
        reveal_strlit("(unnamed)");
        reveal_strlit(" kHz · ");
        reveal_strlit(" ch");
        reveal_strlit("reports no format");
        reveal_strlit("default");
        reveal_strlit("    ");
        reveal_strlit("  ");
        reveal_strlit("\n");
        reveal_strlit("");
    }
    let name = match &entry.name {
        Some(n) => n.clone(),
        None => String::from_str("(unnamed)"),
    };
    let rate = match entry.format {
        Some((hz, ch)) => {
            let mut t = decimal_string((hz / 1000) as u64);
            t.append(" kHz · ");
            t.append(decimal_string(ch as u64).as_str());
            t.append(" ch");
            t
        },
        None => String::from_str("reports no format"),
    };
    let mark = match default {
        Some(d) => if *d == name {
            "default"
        } else {
            ""
        },
        None => "",
    };
    let mut line = String::from_str("    ");
    line.append(pad(name.as_str(), 38).as_str());
    line.append("  ");
    line.append(pad(rate.as_str(), 16).as_str());
    line.append("  ");
    line.append(mark);
    line.append("\n");
    line
}

/// What `tincan devices` prints, from what the driver reported.
pub fn device_report(
    default_in: &Option<String>,
    inputs: &Vec<DeviceListing>,
    default_out: &Option<String>,
    outputs: &Vec<DeviceListing>,
) -> (r: String)
    ensures
        r@ == report_spec(*default_in, inputs@, *default_out, outputs@),
{
    proof {
        reveal_strlit("\n  MICROPHONES\n");
        reveal_strlit("\n  SPEAKERS\n");
    }
    let mut report = String::from_str("\n  MICROPHONES\n");
    append_listing(&mut report, inputs, default_in);
    report.append("\n  SPEAKERS\n");
    append_listing(&mut report, outputs, default_out);
    report.append("\n  Every rate is resampled — 16 kHz Bluetooth headsets included.\n");
    report
}

fn append_listing(report: &mut String, entries: &Vec<DeviceListing>, default: &Option<String>)
    ensures
        final(report)@ == old(report)@ + listing_lines(entries@, *default),
{
    let mut i: usize = 0;
    while i < entries.len()
        invariant
            i <= entries@.len(),
            report@ == old(report)@ + listing_lines(entries@.take(i as int), *default),
        decreases entries@.len() - i,
    {
        assert(entries@.take(i + 1).drop_last() =~= entries@.take(i as int));
        report.append(listing_line_of(&entries[i], default).as_str());
        i = i + 1;
    }
    assert(entries@.take(i as int) =~= entries@);
}

} // verus!
