use tincan::audio::blip::Blip;
use tincan::audio::device::{Recovered, Side};
use tincan::net::voice::LinkStatus;
use tincan::proto::{ChannelId, PeerId, PeerInfo};
use tincan::ui::layout::{clip, columns, fit, fold, margin_for, name_column, pad, pad_left, short_code, COLUMNS_TIGHT, COLUMNS_WIDE};
use tincan::ui::strand::{label, pulse_row, strand_of, unbroken, PULSE_FLOOR_MS, RTT_DAMPING};
use tincan::ui::theme::{Glyphs, Strand};
use tincan::ui::{describe, JoinChime, SelfChime};

#[test]
fn a_reopened_stream_says_what_it_landed_on() {
    let back = describe(&Recovered { side: Side::Speaker, device: Some("MacBook Pro Speakers".into()) });
    assert!(back.contains("speaker"), "{back}");
    assert!(back.contains("MacBook Pro Speakers"), "{back}");

    let gone = describe(&Recovered { side: Side::Microphone, device: None });
    assert!(gone.contains("microphone"), "{gone}");
    assert!(gone.contains("not reopen"), "silence about a dead microphone helps nobody: {gone}");
}

// ── Your own microphone and ears ────────────────────────────────────────────────

#[test]
fn the_first_roster_is_a_sync_and_says_nothing() {
    let mut chime = SelfChime::default();
    assert_eq!(chime.on_roster(false, false), None);
    assert_eq!(chime.on_roster(true, false), Some(Blip::MicOff), "but the next change speaks");
}

#[test]
fn arriving_already_muted_is_not_an_event() {
    let mut chime = SelfChime::default();
    assert_eq!(chime.on_roster(true, true), None);
}

#[test]
fn the_microphone_says_which_way_it_went() {
    let mut chime = SelfChime::default();
    chime.on_roster(false, false);

    assert_eq!(chime.on_roster(true, false), Some(Blip::MicOff));
    assert_eq!(chime.on_roster(false, false), Some(Blip::MicOn));
}

#[test]
fn shutting_your_ears_makes_one_sound_not_two() {
    let mut chime = SelfChime::default();
    chime.on_roster(false, false);

    assert_eq!(chime.on_roster(true, true), Some(Blip::EarsOff), "one action, one sound");
    assert_eq!(chime.on_roster(false, false), Some(Blip::EarsOn));
}

#[test]
fn a_roster_that_changes_nothing_about_you_is_silent() {
    let mut chime = SelfChime::default();
    chime.on_roster(true, false);
    assert_eq!(chime.on_roster(true, false), None, "someone else moving is not your business");
}

// ── The welcome chime ───────────────────────────────────────────────────────────

fn peer(seed: u8, channel: Option<u8>) -> PeerInfo {
    PeerInfo { id: PeerId([seed; 32]), name: format!("peer{seed}"), channel: channel.map(ChannelId), muted: false, deafened: false }
}

const ME: PeerId = PeerId([1; 32]);

/// Our own voice channel, as the roster has it.
fn voice_of(peers: &[PeerInfo]) -> Option<ChannelId> {
    peers.iter().find(|p| p.id == ME).and_then(|p| p.channel)
}

fn roster_in(chime: &mut JoinChime, peers: Vec<PeerInfo>, prev_voice: Option<ChannelId>) -> bool {
    let voice = voice_of(&peers);
    chime.on_roster(&ME, &peers, voice, prev_voice)
}

#[test]
fn first_roster_is_silent() {
    let mut chime = JoinChime::default();
    assert!(!roster_in(&mut chime, vec![peer(1, None), peer(2, None), peer(3, None)], None));
}

#[test]
fn every_newcomer_chimes_for_everyone_present() {
    let mut chime = JoinChime::default();
    roster_in(&mut chime, vec![peer(1, None)], None);

    assert!(roster_in(&mut chime, vec![peer(1, None), peer(2, None)], None), "second peer arriving must chime");
    assert!(
        roster_in(&mut chime, vec![peer(1, None), peer(2, None), peer(3, None)], None),
        "third peer arriving must chime too"
    );
}

#[test]
fn unchanged_membership_is_silent() {
    let mut chime = JoinChime::default();
    roster_in(&mut chime, vec![peer(1, None), peer(2, None)], None);
    assert!(
        !roster_in(&mut chime, vec![peer(1, None), peer(2, Some(3))], None),
        "a peer switching channel is not an arrival"
    );
}

#[test]
fn departure_is_silent() {
    let mut chime = JoinChime::default();
    roster_in(&mut chime, vec![peer(1, None), peer(2, None), peer(3, None)], None);
    assert!(!roster_in(&mut chime, vec![peer(1, None), peer(2, None)], None));
}

#[test]
fn rejoining_peer_chimes_again() {
    let mut chime = JoinChime::default();
    roster_in(&mut chime, vec![peer(1, None), peer(2, None)], None);
    roster_in(&mut chime, vec![peer(1, None)], None);
    assert!(roster_in(&mut chime, vec![peer(1, None), peer(2, None)], None));
}

#[test]
fn own_channel_entry_chimes() {
    let mut chime = JoinChime::default();
    roster_in(&mut chime, vec![peer(1, None)], None);
    assert!(roster_in(&mut chime, vec![peer(1, Some(0))], None), "entering a channel must chime");
}

#[test]
fn own_channel_exit_is_silent() {
    let mut chime = JoinChime::default();
    roster_in(&mut chime, vec![peer(1, Some(0))], None);
    assert!(!roster_in(&mut chime, vec![peer(1, None)], Some(ChannelId(0))));
}

// ── Glyphs ──────────────────────────────────────────────────────────────────────

#[test]
fn every_strand_has_its_own_glyph() {
    for glyphs in [&Glyphs::unicode(), &Glyphs::ascii()] {
        let mut seen = glyphs.strand.to_vec();
        seen.sort_unstable();
        seen.dedup();
        assert_eq!(seen.len(), 4, "a state that looks like another reports nothing");
    }
}

#[test]
fn the_ascii_fallback_is_actually_ascii() {
    let ascii = Glyphs::ascii();
    let art = &ascii.can;
    let text = format!(
        "{}{}{}{}{}{}{}{}{}{}{}{}{}{}{}",
        ascii.strand.iter().collect::<String>(),
        ascii.pulse,
        ascii.cursor,
        ascii.on_air,
        ascii.meter.concat(),
        ascii.bar.iter().collect::<String>(),
        ascii.caret,
        ascii.note,
        ascii.cut,
        ascii.dot,
        art.lid,
        art.top,
        art.body,
        art.bottom,
        [art.string, art.knot].iter().collect::<String>(),
    );
    assert!(text.is_ascii(), "not ascii: {text}");
}

#[test]
fn every_meter_step_is_the_same_width() {
    for glyphs in [&Glyphs::unicode(), &Glyphs::ascii()] {
        for step in glyphs.meter {
            assert_eq!(step.chars().count(), 3, "the meter must not shift the name beside it");
        }
    }
}

#[test]
fn the_meter_runs_from_quiet_to_loud() {
    let glyphs = Glyphs::unicode();
    let quiet = glyphs.meter_step(0);
    let loud = glyphs.meter_step(4);
    assert_ne!(quiet, loud);
    assert_eq!(glyphs.meter_step(9), loud, "an out-of-range level must not panic");
    assert_eq!(glyphs.strand_glyph(Strand::Frayed), '┆');
}

// ── The string ──────────────────────────────────────────────────────────────────

fn link(peers: usize, relayed: usize) -> LinkStatus {
    LinkStatus { direct: peers - relayed, relayed, worst_rtt: Some(20) }
}

#[test]
fn a_room_with_no_voice_leaves_the_string_slack_and_says_so() {
    let strand = strand_of(false, &LinkStatus::default(), false);
    assert_eq!(strand, Strand::Idle);
    assert_eq!(label(false, strand), "TEXT ONLY");
}

#[test]
fn alone_in_the_room_is_not_the_same_as_having_no_audio() {
    let strand = strand_of(true, &LinkStatus::default(), false);
    assert_eq!(strand, Strand::Idle);
    assert_eq!(label(true, strand), "ALONE");
}

#[test]
fn a_direct_link_pulls_the_string_taut() {
    let strand = strand_of(true, &link(2, 0), false);
    assert_eq!(strand, Strand::Taut);
    assert_eq!(label(true, strand), "DIRECT");
}

#[test]
fn one_relayed_peer_is_enough_to_slacken_it() {
    let strand = strand_of(true, &link(3, 1), false);
    assert_eq!(strand, Strand::Slack);
    assert_eq!(label(true, strand), "RELAY");
}

#[test]
fn dropouts_outrank_everything_else() {
    let strand = strand_of(true, &link(2, 1), true);
    assert_eq!(strand, Strand::Frayed, "a fraying string is the more urgent news");
    assert_eq!(label(true, strand), "CHOPPY");
}

#[test]
fn a_fraying_string_actually_has_gaps() {
    let rows: Vec<bool> = (0..8).map(|row| unbroken(Strand::Frayed, row)).collect();
    assert!(rows.contains(&false), "fraying must be visible, not just coloured");
    assert!(rows.contains(&true), "the string must not vanish either");
    assert!((0..8).all(|row| unbroken(Strand::Taut, row)), "a taut string is whole");
}

#[test]
fn nothing_travels_while_nobody_talks() {
    assert_eq!(pulse_row(false, true, Some(20), 1000, 20), None);
}

#[test]
fn a_talking_room_puts_a_pulse_on_the_string() {
    let row = pulse_row(true, true, Some(20), 12_345, 20).expect("a talking room must show the voice moving");
    assert!(row < 20, "the pulse must stay on the string");
}

#[test]
fn reduced_motion_still_reports_the_voice() {
    assert_eq!(pulse_row(true, false, Some(20), 12_345, 20), Some(10), "it stops moving, it does not disappear");
}

#[test]
fn a_slower_link_moves_the_pulse_more_slowly() {
    let quick_step = PULSE_FLOOR_MS;
    let slow_step = PULSE_FLOOR_MS + 280 / RTT_DAMPING;
    assert!(slow_step > quick_step, "latency has to be visible in the travel");
    // 61 ms per row on a 20 ms link, 148 ms per row on a 280 ms one.
    assert_eq!(pulse_row(true, true, Some(20), 610, 100), Some(10));
    assert_eq!(pulse_row(true, true, Some(280), 1480, 100), Some(10));
    assert_eq!(pulse_row(true, true, Some(5_000), 1550, 100), Some(10), "the round trip is capped");
}

// ── Layout ──────────────────────────────────────────────────────────────────────

#[test]
fn folding_never_loses_or_overflows_a_word() {
    let folded = fold("the quick brown fox", 9);
    assert!(folded.iter().all(|line| line.chars().count() <= 9), "{folded:?}");
    assert_eq!(folded.concat().replace(' ', ""), "thequickbrownfox");

    let long = fold("supercalifragilistic", 6);
    assert!(long.iter().all(|line| line.chars().count() <= 6), "{long:?}");
    assert_eq!(long.concat(), "supercalifragilistic");

    assert_eq!(fold("", 10), vec![""], "an empty message still takes a row");
}

#[test]
fn folding_is_greedy_and_breaks_only_long_words() {
    assert_eq!(fold("the quick brown fox", 9), vec!["the quick", "brown fox"]);
    assert_eq!(fold("ab  cd\tef", 5), vec!["ab cd", "ef"]);
    assert_eq!(fold("hi abcdefgh", 4), vec!["hi", "abcd", "efgh"]);
    assert_eq!(fold("x y", 0), vec!["x", "y"], "a zero column is taken as one");
    assert_eq!(fold("   ", 3), vec![""]);
}

#[test]
fn clipping_marks_what_it_cut() {
    let cut = Glyphs::unicode().cut;
    assert_eq!(clip("general", 20, cut), "general");
    assert_eq!(clip("a very long device name", 8, cut).chars().count(), 8);
    assert!(clip("a very long device name", 8, cut).starts_with("a very"));
    assert_eq!(clip("abc", 0, cut), "");
    assert_eq!(clip("abc", 1, cut), "a");
    assert_eq!(clip("abcdef", 4, '~'), "abc~");
}

#[test]
fn the_hint_line_shortens_a_step_at_a_time() {
    let full = "Tab channel · F2 voice · F3 mute · F6 settings · Ctrl+C quit";
    assert_eq!(fit(full, 80), full);
    assert_eq!(fit(full, 55), "Tab · F2 voice · F3 mute · F6 settings · Ctrl+C quit");
    assert_eq!(fit(full, 40), "Tab · F2 voice · F6 settings · Ctrl+C");
    assert_eq!(fit(full, 30), "F6 settings · Ctrl+C quit");
    assert_eq!(fit(full, 12), "Ctrl+C quit");
    assert_eq!(fit(full, 3), "Tab");
}

#[test]
fn the_invite_code_is_shortened_in_the_footer() {
    assert_eq!(short_code("abcd-efgh-ijkl"), "abcd-efgh…");
    assert_eq!(short_code("abc"), "abc…");
}

#[test]
fn padding_fills_to_the_width_and_never_cuts() {
    assert_eq!(pad("ab", 4), "ab  ");
    assert_eq!(pad_left("ab", 4), "  ab");
    assert_eq!(pad("abcdef", 4), "abcdef");
    assert_eq!(pad("é", 3), "é  ", "widths are counted in characters");
}

#[test]
fn a_narrow_terminal_gives_the_words_more_of_the_line() {
    let (time_column, ceiling) = columns(52);
    assert!(time_column + ceiling < COLUMNS_WIDE.0 + COLUMNS_WIDE.1);
    assert_eq!(columns(52), COLUMNS_TIGHT);
    assert_eq!(columns(68), COLUMNS_WIDE);
}

#[test]
fn the_column_grows_for_the_names_that_are_actually_talking() {
    assert_eq!(name_column(&[], COLUMNS_WIDE.1), 4, "an empty room keeps the edge and no more");
    assert_eq!(name_column(&[3], COLUMNS_WIDE.1), 4);
    assert_eq!(name_column(&[3, 9, 6], COLUMNS_WIDE.1), 9);
    assert_eq!(name_column(&[30], COLUMNS_WIDE.1), 14);
}

#[test]
fn the_drawing_is_centred() {
    assert_eq!(margin_for(70), " ".repeat(2));
    assert_eq!(margin_for(100), " ".repeat(16));
    assert_eq!(margin_for(3), " ".repeat(1));
}

#[test]
fn a_device_note_is_not_repeated() {
    let mut notes = tincan::ui::AudioNotes::default();
    assert_eq!(notes.pass("the microphone changed".to_string()), Some("the microphone changed".to_string()));
    assert_eq!(notes.pass("the microphone changed".to_string()), None);
    assert_eq!(notes.pass("the speaker changed".to_string()), Some("the speaker changed".to_string()));
    assert_eq!(notes.pass("the microphone changed".to_string()), Some("the microphone changed".to_string()));
}

#[test]
fn only_a_rising_dropout_count_is_news() {
    let mut app = tincan::ui::state::App::new(tincan::proto::PeerId([1; 32]), "code".into());
    assert!(app.note_dropouts(3));
    assert!(!app.note_dropouts(3));
    assert_eq!(app.audio_dropouts, 3);
    assert!(!app.note_dropouts(1));
    assert_eq!(app.audio_dropouts, 1);
}
