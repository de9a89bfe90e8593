use tincan::audio::device::AudioDeviceInfo;
use tincan::net::voice::LinkStatus;
use tincan::net::Event;
use tincan::proto::{ChannelId, ChatLine, PeerId, PeerInfo, RoomSnapshot};
use tincan::ui::layout::{columns, name_column, AFTER_NAME, COLUMNS_WIDE, GROUPING_WINDOW};
use tincan::ui::screen::{
    audio_rows, cans, channel_rows, clock, compact, device_rows, diagram, field_row, footer_row,
    header_row, link_summary, meter, meter_cells, meter_row, people_heading, people_rows, plainly,
    section, shortcut_line, shows_rail, spread, string_between, talk_rows, test_rows, transcript,
    typing_rows, MicReading, PeerMark, Segment, Tone, Volume, CANS_ROWS, METER_CELLS,
};
use tincan::ui::state::App;
use tincan::ui::theme::{Glyphs, Strand};
use tincan::ui::ViewMode;

fn text(row: &[Segment]) -> String {
    row.iter().map(|piece| piece.text.as_str()).collect()
}

fn joined(rows: &[Vec<Segment>]) -> String {
    rows.iter().map(|row| text(row)).collect::<Vec<_>>().join("\n")
}

fn glyphs() -> Glyphs {
    Glyphs::unicode()
}

// ── The chat pane ───────────────────────────────────────────────────────────────

fn said(app: &mut App, from: u8, at: u64, what: &str) {
    app.apply(
        Event::Chat(ChatLine { channel: ChannelId(0), from: PeerId([from; 32]), text: what.into(), at }),
        at,
    );
}

fn person(seed: u8, name: &str) -> PeerInfo {
    PeerInfo { id: PeerId([seed; 32]), name: name.into(), channel: None, muted: false, deafened: false }
}

fn room() -> App {
    let mut app = App::new(PeerId([1; 32]), "n73w-kuqc-uog2".into());
    app.apply(
        Event::Welcome {
            me: PeerId([1; 32]),
            room: RoomSnapshot {
                room_name: "lobby".into(),
                channels: vec!["general".into()],
                peers: vec![person(1, "alice"), person(2, "bob")],
                recent_chat: vec![],
            },
        },
        0,
    );
    app
}

/// The chat pane as the terminal shows it: the talk, then the message field, each row
/// cut to the pane and without trailing blanks.
fn screen(width: u16, height: u16, app: &App) -> String {
    let mut rows = talk_rows(width, height - 1, app, false, &glyphs());
    rows.truncate((height - 1) as usize);
    rows.push(field_row(width, app, &glyphs()));
    rows.iter()
        .map(|row| text(row).chars().take(width as usize).collect::<String>().trim_end().to_string())
        .collect::<Vec<_>>()
        .join("\n")
}

fn measured(app: &mut App, rtt: u128) {
    app.voice_available = true;
    app.link = LinkStatus { direct: 1, relayed: 0, worst_rtt: Some(rtt) };
}

#[test]
fn a_run_of_messages_keeps_only_the_first_heading() {
    let mut app = room();
    said(&mut app, 2, 1000, "hey");
    said(&mut app, 2, 1010, "you there");
    said(&mut app, 1, 1020, "here");

    let rows = transcript(70, &app, &glyphs());
    assert!(text(&rows[0]).contains("bob"), "{}", text(&rows[0]));
    assert!(!text(&rows[1]).contains("bob"), "a repeated name is noise: {}", text(&rows[1]));
    assert!(text(&rows[1]).contains("you there"));
    assert!(text(&rows[2]).contains("alice"), "a new speaker starts a new block");
}

#[test]
fn a_long_gap_starts_a_new_block() {
    let mut app = room();
    said(&mut app, 2, 1000, "hey");
    said(&mut app, 2, 1000 + GROUPING_WINDOW + 1, "still there?");

    let rows = transcript(70, &app, &glyphs());
    assert!(text(&rows[1]).contains("bob"), "an hour later is a new thought: {}", text(&rows[1]));
}

#[test]
fn wrapped_messages_stay_in_their_column() {
    let mut app = room();
    said(&mut app, 2, 1000, "a message long enough that it has to be folded across lines");

    let rows = transcript(50, &app, &glyphs());
    assert!(rows.len() > 1, "this should have wrapped");
    let (time_column, ceiling) = columns(50);
    let names = name_column(&["bob".len()], ceiling);
    let indent = " ".repeat(time_column + names + AFTER_NAME);
    assert!(text(&rows[1]).starts_with(&indent), "continuation broke the column: {:?}", text(&rows[1]));
}

#[test]
fn a_short_name_sits_next_to_what_it_said() {
    let mut app = room();
    said(&mut app, 2, 1000, "hey");

    let row = text(&transcript(70, &app, &glyphs())[0]);
    let name = row.find("bob").expect("the name must be there");
    let message = row.find("hey").expect("the message must be there");
    assert_eq!(
        message - (name + "bob".len()),
        AFTER_NAME,
        "a five letter name must not be marooned in the gutter: {row:?}"
    );
}

#[test]
fn the_drawing_is_exactly_as_tall_as_it_claims() {
    assert_eq!(cans(70, &room(), false, &glyphs()).len(), CANS_ROWS);
}

#[test]
fn a_tall_pane_keeps_the_link_in_view_above_a_short_conversation() {
    let mut app = room();
    measured(&mut app, 18);
    said(&mut app, 2, 1000, "hi");

    assert!(screen(70, 24, &app).contains("18ms"), "a big empty terminal should still show the link");
    assert!(!screen(70, 10, &app).contains("18ms"), "a full pane belongs to the conversation");
}

#[test]
fn a_short_conversation_hangs_from_the_bottom_of_the_pane() {
    let mut app = room();
    said(&mut app, 2, 1000, "only one line");

    let drawn = screen(46, 12, &app);
    let rows: Vec<&str> = drawn.lines().collect();

    assert!(rows[0].is_empty(), "the top should be air, not a stranded message: {rows:?}");
    assert!(rows[10].contains("only one line"), "the last line belongs just above the field: {rows:?}");
}

#[test]
fn an_empty_room_shows_the_code_instead_of_a_logo() {
    let mut app = room();
    app.peers.retain(|peer| peer.id == app.me);
    let drawn = joined(&diagram(70, 20, &app, false, &glyphs()));

    assert!(drawn.contains("n73w-kuqc-uog2"), "the code is the next step:\n{drawn}");
    assert!(drawn.contains("nobody on the line"), "{drawn}");
}

#[test]
fn a_joined_room_draws_the_other_can_and_the_link() {
    let mut app = room();
    measured(&mut app, 18);
    let drawn = joined(&diagram(70, 20, &app, false, &glyphs()));

    assert!(drawn.contains("bob"), "the other end has a name:\n{drawn}");
    assert!(drawn.contains("18ms"), "the link is measured, not decorated:\n{drawn}");
    assert!(drawn.contains("direct"), "{drawn}");
}

#[test]
fn a_relayed_link_ties_a_knot_in_the_string() {
    let glyphs = glyphs();
    let knotted = text(&string_between(30, true, false, Strand::Slack, &glyphs));
    assert!(knotted.contains(glyphs.can.knot), "{knotted}");
    assert_eq!(knotted.chars().count(), 30, "a knot must not stretch the string");
}

#[test]
fn a_tiny_terminal_still_reports_the_link() {
    let app = room();
    let drawn = joined(&compact(30, &app, false, &glyphs(), &["bob".to_string()]));
    assert!(drawn.contains("you"), "{drawn}");
}

#[test]
fn a_string_nobody_holds_runs_out_at_a_cut_end() {
    let glyphs = glyphs();
    let hanging = text(&string_between(12, false, true, Strand::Idle, &glyphs));
    assert_eq!(hanging.chars().count(), 12);
    assert!(hanging.ends_with(glyphs.cut), "{hanging}");
    assert_eq!(text(&string_between(0, false, true, Strand::Idle, &glyphs)), "");
}

#[test]
fn a_short_string_has_no_room_for_a_knot() {
    let glyphs = glyphs();
    let short = text(&string_between(4, true, false, Strand::Slack, &glyphs));
    assert_eq!(short, "╌╌╌╌");
}

#[test]
fn a_notice_is_dim_and_marked_as_the_room_talking() {
    let mut app = room();
    app.notice("alice joined".into(), 1000);
    let rows = transcript(70, &app, &glyphs());
    assert_eq!(rows.len(), 1);
    assert!(rows[0].iter().all(|piece| piece.tone == Tone::Dim), "{:?}", text(&rows[0]));
    assert!(text(&rows[0]).contains("·  alice joined"), "{}", text(&rows[0]));
}

#[test]
fn your_own_name_wears_the_accent() {
    let mut app = room();
    said(&mut app, 1, 1000, "mine");
    said(&mut app, 2, 2000, "theirs");
    let rows = transcript(70, &app, &glyphs());
    let tone_of = |row: &[Segment], name: &str| row.iter().find(|p| p.text.contains(name)).unwrap().tone;
    assert_eq!(tone_of(&rows[0], "alice"), Tone::Accent);
    assert_eq!(tone_of(&rows[1], "bob"), Tone::Strong);
}

#[test]
fn the_clock_reads_hours_and_minutes() {
    for at in [0, 1_700_000_000, 86_399] {
        let shown = clock(at);
        assert_eq!(shown.chars().count(), 5, "{shown}");
        assert_eq!(shown.chars().nth(2), Some(':'), "{shown}");
    }
}

#[test]
fn clock_renders_a_time_or_a_placeholder() {
    assert_eq!(clock(0).len(), 5, "even the epoch must format");
    assert!(clock(1_700_000_000).contains(':'));
}

#[test]
fn the_field_keeps_the_end_of_a_long_message_in_view() {
    let mut app = room();
    app.input = "x".repeat(100) + "END";
    let row = text(&field_row(40, &app, &glyphs()));
    assert!(row.starts_with(" #general "), "{row}");
    assert!(row.contains("END"), "{row}");
    assert_eq!(row.chars().count(), 40, "{row}");

    app.input.clear();
    assert!(text(&field_row(40, &app, &glyphs())).contains("say something"));
}

// ── Header, footer and layout ──────────────────────────────────────────────────

fn lobby() -> App {
    let mut app = App::new(PeerId([1; 32]), "n73w-kuqc-uog2".into());
    app.room_name = "lobby".into();
    app.channels = vec!["general".into(), "gaming".into(), "music".into()];
    app
}

#[test]
fn the_room_and_the_channel_are_named_in_the_header() {
    let header = text(&header_row(80, &lobby(), false));
    assert!(header.contains("TINCAN"), "{header}");
    assert!(header.contains("lobby"), "{header}");
    assert!(header.contains("#general"), "{header}");
}

#[test]
fn the_header_reports_dropping_audio_and_the_round_trip() {
    let mut app = lobby();
    measured(&mut app, 42);
    let header = header_row(80, &app, true);
    let shown = text(&header);
    assert!(shown.contains("audio dropping"), "{shown}");
    assert!(shown.contains("CHOPPY"), "{shown}");
    assert!(shown.contains("42ms"), "{shown}");
    assert!(header.iter().any(|p| p.tone == Tone::ChipLink(Strand::Frayed)));
    assert_eq!(shown.chars().count(), 80, "{shown}");
}

#[test]
fn the_shortcuts_are_always_on_screen() {
    let footer = text(&footer_row(80, &lobby(), false, '…'));
    assert!(footer.contains("ctrl+c"), "{footer}");
}

#[test]
fn the_settings_hints_name_the_keys_that_screen_actually_has() {
    let full = shortcut_line(ViewMode::Settings, false, 80, false, '…');
    assert!(full.contains("←→"), "the dials are only discoverable from here: {full}");
    for width in [70, 55, 40, 20, 4] {
        assert!(shortcut_line(ViewMode::Settings, false, width, false, '…').chars().count() <= width);
    }
}

#[test]
fn picking_someone_out_of_the_roster_puts_their_keys_in_the_footer() {
    let full = shortcut_line(ViewMode::Chat, true, 80, false, '…');
    assert!(full.contains("←→"), "one person's volume is only discoverable from here: {full}");
    assert!(full.contains("ctrl+k"), "and so is silencing them: {full}");
    for width in [70, 55, 40, 20, 4] {
        assert!(shortcut_line(ViewMode::Chat, true, width, false, '…').chars().count() <= width);
    }
}

#[test]
fn the_key_that_joins_a_channel_survives_the_roster_taking_the_footer() {
    for width in [80, 60, 50, 40] {
        let line = shortcut_line(ViewMode::Chat, true, width, false, '…');
        assert!(line.contains("f2"), "at {width} columns: {line}");
        assert!(line.chars().count() <= width);
    }
}

#[test]
fn the_invite_code_survives_a_crowded_footer() {
    for width in [72, 76, 80, 100] {
        let footer = text(&footer_row(width, &lobby(), false, '…'));
        assert!(footer.contains("f1 code"), "lost the code at {width}: {footer}");
    }
}

#[test]
fn a_narrow_terminal_drops_the_rail_and_keeps_the_talk() {
    assert!(shows_rail(80, 22), "the rail belongs on a normal terminal");
    assert!(!shows_rail(50, 22), "the rail must give way");
    assert!(text(&field_row(50, &lobby(), &glyphs())).contains("say something"), "the message field must survive");
}

#[test]
fn a_plain_terminal_gets_a_screen_it_can_actually_print() {
    let mut app = lobby();
    app.peers = vec![PeerInfo {
        id: PeerId([2; 32]),
        name: "a-name-too-long-for-the-rail".into(),
        channel: Some(ChannelId(0)),
        muted: false,
        deafened: false,
    }];
    app.voice_available = true;
    let plain = Glyphs::ascii();

    let mut rows = vec![header_row(84, &app, false), footer_row(84, &app, true, plain.cut), field_row(56, &app, &plain)];
    rows.extend(channel_rows(28, &app, &plain));
    rows.extend(people_rows(28, &app, &plain, &[PeerMark { level: 2, volume: Volume::Full }]));
    rows.extend(talk_rows(56, 18, &app, false, &plain));
    rows.extend(section(&people_heading(&app, &plain, true), false, Vec::new(), 3));
    let screen = joined(&rows);
    assert!(screen.is_ascii(), "a glyph escaped the fallback:\n{screen}");
}

#[test]
fn the_shortcut_line_shortens_instead_of_breaking() {
    assert!(shortcut_line(ViewMode::Chat, false, 80, false, '…').contains("f3 mute"));
    assert!(shortcut_line(ViewMode::Chat, false, 55, false, '…').contains("f3 mute"), "the ladder must not skip a rung");
    assert!(shortcut_line(ViewMode::Chat, false, 40, false, '…').chars().count() <= 40);
    assert!(shortcut_line(ViewMode::Chat, false, 12, false, '…').chars().count() <= 12);
    assert!(shortcut_line(ViewMode::Chat, false, 3, false, '…').chars().count() <= 3);
}

#[test]
fn a_status_takes_the_place_of_the_shortcuts() {
    let mut app = lobby();
    app.status = Some("copied".into());
    let footer = text(&footer_row(80, &app, false, '…'));
    assert!(footer.contains("copied"), "{footer}");
    assert!(!footer.contains("ctrl+c"), "{footer}");
}

#[test]
fn spread_puts_the_right_side_at_the_edge_or_drops_it() {
    let left = || vec![Segment { text: "ab".into(), tone: Tone::Text }];
    let right = || vec![Segment { text: "cd".into(), tone: Tone::Dim }];
    assert_eq!(text(&spread(10, left(), right())), "ab      cd");
    assert_eq!(text(&spread(4, left(), right())), "ab", "no room for both");
}

#[test]
fn the_ascii_fallback_reaches_the_marks_that_live_in_prose() {
    assert_eq!(plainly("tab · f2 · ↑↓ move", true), "tab - f2 - up/down move");
    assert!(Glyphs::ascii().cut.is_ascii());
    assert!(Glyphs::ascii().dot.is_ascii());
    assert_eq!(plainly("tab · f2", false), "tab · f2", "a capable terminal keeps the mark");
}

#[test]
fn the_two_greens_stay_apart() {
    let glyphs = glyphs();
    assert_ne!(Tone::Accent, Tone::Holding, "what is active and what is holding are different questions");
    assert_ne!(meter(&glyphs, 4).1, meter(&glyphs, 2).1, "a hot meter must look hot");
}

// ── The rail ────────────────────────────────────────────────────────────────────

fn rail_room() -> App {
    let mut app = App::new(PeerId([1; 32]), "code".into());
    app.channels = vec!["general".into(), "gaming".into()];
    app.peers = vec![
        PeerInfo { id: PeerId([1; 32]), name: "alice".into(), channel: Some(ChannelId(0)), muted: false, deafened: false },
        PeerInfo { id: PeerId([2; 32]), name: "bob".into(), channel: None, muted: true, deafened: false },
    ];
    app
}

fn plain_peer() -> PeerInfo {
    PeerInfo { id: PeerId([3; 32]), name: "cem".into(), channel: Some(ChannelId(0)), muted: false, deafened: false }
}

fn at_rest(app: &App) -> Vec<PeerMark> {
    app.peers.iter().map(|_| PeerMark { level: 0, volume: Volume::Full }).collect()
}

fn with_third(app: &App, level: u8, volume: Volume) -> Vec<PeerMark> {
    let mut marks = at_rest(app);
    marks[2] = PeerMark { level, volume };
    marks
}

#[test]
fn reading_a_channel_and_talking_in_it_are_marked_separately() {
    let mut app = rail_room();
    app.viewing = ChannelId(0);
    app.voice = Some(ChannelId(1));
    let glyphs = glyphs();
    let rows = channel_rows(28, &app, &glyphs);

    let general = text(&rows[0]);
    let gaming = text(&rows[1]);
    assert!(general.contains(glyphs.cursor), "the read channel keeps the cursor: {general}");
    assert!(!general.contains(glyphs.on_air), "we are not talking there: {general}");
    assert!(gaming.contains(glyphs.on_air), "the voice channel is marked: {gaming}");
}

#[test]
fn a_channel_with_something_waiting_is_set_apart_from_the_one_you_are_in() {
    let mut app = rail_room();
    app.unread.push(ChannelId(1));
    let rows = channel_rows(28, &app, &glyphs());

    let waiting = rows[1].iter().find(|piece| piece.text.contains("gaming")).unwrap();
    let quiet = rows[0].iter().find(|piece| piece.text.contains("general")).unwrap();
    assert_ne!(waiting.tone, quiet.tone, "an unread channel has to look different");
    assert_ne!(waiting.tone, Tone::Accent, "and different from the colour that means you are already there");
}

#[test]
fn the_roster_says_where_someone_is_or_why_they_are_quiet() {
    let app = rail_room();
    let rows = people_rows(28, &app, &glyphs(), &at_rest(&app));

    assert!(text(&rows[0]).contains("general"), "{}", text(&rows[0]));
    assert!(text(&rows[0]).contains("you"), "we are marked in our own roster");
    assert!(text(&rows[1]).contains("muted"), "{}", text(&rows[1]));
}

#[test]
fn a_deafened_peer_reports_that_over_being_muted() {
    let mut app = rail_room();
    app.peers[1].deafened = true;
    let rows = people_rows(28, &app, &glyphs(), &at_rest(&app));
    assert!(text(&rows[1]).contains("deafened"), "{}", text(&rows[1]));
}

#[test]
fn every_row_fits_the_rail() {
    let mut app = rail_room();
    app.peers[0].name = "a-really-long-nickname".into();
    app.channels = vec!["a-really-long-channel-name".into()];
    let glyphs = glyphs();

    for row in channel_rows(28, &app, &glyphs) {
        assert!(text(&row).chars().count() <= 28, "channel row overflowed: {}", text(&row));
    }
    for row in people_rows(28, &app, &glyphs, &at_rest(&app)) {
        assert!(text(&row).chars().count() <= 28, "roster row overflowed: {}", text(&row));
    }
}

#[test]
fn both_lists_put_their_cursor_in_the_same_column() {
    let mut app = rail_room();
    app.selected_peer = Some(PeerId([2; 32]));
    let glyphs = glyphs();

    let channel = text(&channel_rows(28, &app, &glyphs)[0]);
    let person = text(&people_rows(28, &app, &glyphs, &at_rest(&app))[1]);
    let at = |row: &str| row.chars().position(|c| c == glyphs.cursor);

    assert_eq!(at(&channel), at(&person), "the cursor says \"your keys act here\"\n{channel}\n{person}");
}

#[test]
fn the_row_you_are_on_is_marked_and_says_where_its_volume_sits() {
    let mut app = rail_room();
    app.peers.push(plain_peer());
    app.selected_peer = Some(PeerId([3; 32]));
    let glyphs = glyphs();
    let rows = people_rows(28, &app, &glyphs, &with_third(&app, 0, Volume::Lowered { percent: 50 }));

    let selected = text(&rows[2]);
    assert!(selected.contains(glyphs.cursor), "the selected row must carry the cursor: {selected}");
    assert!(selected.contains("50%"), "and say where the volume now sits: {selected}");

    let other = text(&rows[0]);
    assert!(!other.contains(glyphs.cursor), "only one row at a time: {other}");
}

#[test]
fn the_exact_volume_replaces_the_channel_only_while_you_are_on_that_row() {
    let mut app = rail_room();
    app.peers.push(plain_peer());
    let glyphs = glyphs();
    let marks = with_third(&app, 0, Volume::Lowered { percent: 50 });

    let resting = text(&people_rows(28, &app, &glyphs, &marks)[2]);
    assert!(resting.contains("general"), "with the cursor elsewhere the row says where they are: {resting}");
    assert!(!resting.contains("50%"), "a number nobody is adjusting is noise: {resting}");

    app.selected_peer = Some(PeerId([3; 32]));
    let adjusting = text(&people_rows(28, &app, &glyphs, &marks)[2]);
    assert!(adjusting.contains("50%"), "while you are moving it, the number is the whole point: {adjusting}");
}

#[test]
fn the_roster_names_its_key_until_you_have_used_it() {
    let mut app = rail_room();
    let idle = people_heading(&app, &glyphs(), false);
    assert!(idle.contains("↑↓"), "{idle}");

    app.selected_peer = Some(PeerId([2; 32]));
    let holding = people_heading(&app, &glyphs(), false);
    assert!(!holding.contains("↑↓"), "{holding}");
}

#[test]
fn the_people_section_lights_up_while_the_cursor_is_in_it() {
    let resting = section("ON THE LINE", false, Vec::new(), 5);
    let holding = section("ON THE LINE", true, Vec::new(), 5);
    assert_ne!(resting[0][1].tone, holding[0][1].tone);
    assert_eq!(holding[0][1].tone, Tone::ChipOn);
}

fn meter_tone_of(row: &[Segment], glyphs: &Glyphs) -> Tone {
    row.iter().find(|piece| glyphs.meter.contains(&piece.text.as_str())).expect("every roster row draws a meter").tone
}

#[test]
fn a_voice_you_turned_down_reads_dim_even_while_it_is_moving() {
    let mut app = rail_room();
    app.peers.push(plain_peer());
    let glyphs = glyphs();

    let at_full = meter_tone_of(&people_rows(28, &app, &glyphs, &with_third(&app, 3, Volume::Full))[2], &glyphs);
    let quieted =
        meter_tone_of(&people_rows(28, &app, &glyphs, &with_third(&app, 3, Volume::Lowered { percent: 50 }))[2], &glyphs);

    assert_ne!(at_full, quieted, "once the number is gone the meter is the only thing left carrying the volume");
    assert_eq!(quieted, Tone::Dim, "it still moves; it is just not reaching you whole");
}

#[test]
fn a_silenced_person_is_marked_beside_their_name_not_only_at_the_edge() {
    let mut app = rail_room();
    app.peers.push(plain_peer());
    let glyphs = glyphs();

    let heard = text(&people_rows(28, &app, &glyphs, &with_third(&app, 3, Volume::Full))[2]);
    assert!(heard.contains(glyphs.meter[3]), "sanity: {heard}");

    let silenced = text(&people_rows(28, &app, &glyphs, &with_third(&app, 3, Volume::Silenced))[2]);
    assert!(!silenced.contains(glyphs.meter[3]), "a meter means nothing once none of it reaches you: {silenced}");
    assert!(silenced.contains(glyphs.silenced), "the mark belongs in the column the eye watches: {silenced}");
}

#[test]
fn silencing_someone_reads_as_silenced_rather_than_as_a_number() {
    let mut app = rail_room();
    app.peers.push(plain_peer());
    let rows = people_rows(28, &app, &glyphs(), &with_third(&app, 0, Volume::Silenced));
    assert!(text(&rows[2]).contains("silenced"), "zero is not a volume, it is a decision: {}", text(&rows[2]));
}

#[test]
fn someone_who_muted_themselves_says_that_over_the_volume_you_gave_them() {
    let app = rail_room();
    let mut marks = at_rest(&app);
    marks[1] = PeerMark { level: 0, volume: Volume::Lowered { percent: 50 } };
    let rows = people_rows(28, &app, &glyphs(), &marks);
    assert!(text(&rows[1]).contains("muted"), "{}", text(&rows[1]));
}

#[test]
fn unknown_hardware_still_says_something_true() {
    let app = rail_room();
    let rows = audio_rows(28, &app, &glyphs());
    assert!(text(&rows[0]).contains("system default"), "{}", text(&rows[0]));
}

#[test]
fn a_speaker_who_is_talking_is_set_in_the_strong_weight() {
    let mut app = rail_room();
    app.speaking = vec![PeerId([2; 32])];
    let rows = people_rows(28, &app, &glyphs(), &at_rest(&app));
    let bob = rows[1].iter().find(|p| p.text.contains("bob")).unwrap();
    assert_eq!(bob.tone, Tone::Strong);
    let alice = rows[0].iter().find(|p| p.text.contains("alice")).unwrap();
    assert_eq!(alice.tone, Tone::Text);
}

// ── Settings ────────────────────────────────────────────────────────────────────

fn device(name: &str, rate: u32, default: bool) -> AudioDeviceInfo {
    AudioDeviceInfo { name: name.into(), sample_rate: rate, channels: 1, is_default: default, is_supported: rate > 0 }
}

fn settings_app() -> App {
    let mut app = App::new(PeerId([1; 32]), "code".into());
    app.input_devices = vec![
        device("MacBook Pro Microphone", 48000, true),
        device("AirPods", 16000, false),
        device("Broken Thing", 0, false),
    ];
    app
}

#[test]
fn the_device_in_use_is_named_as_such() {
    let mut app = settings_app();
    app.active_input_name = Some("AirPods".into());
    let rows = device_rows(60, &glyphs(), &app.input_devices, 0, &app.active_input_name, true, "");
    assert!(text(&rows[1]).contains("in use"), "{}", text(&rows[1]));
    assert!(!text(&rows[0]).contains("in use"), "{}", text(&rows[0]));
}

#[test]
fn a_device_that_reports_nothing_is_called_unavailable() {
    let app = settings_app();
    let rows = device_rows(60, &glyphs(), &app.input_devices, 0, &None, true, "");
    assert!(text(&rows[2]).contains("unavailable"), "{}", text(&rows[2]));
}

#[test]
fn an_empty_list_says_what_to_do_about_it() {
    let rows = device_rows(60, &glyphs(), &Vec::new(), 0, &None, true, "no microphone found. press r to look again.");
    assert!(text(&rows[0]).contains("press r"), "{}", text(&rows[0]));
}

#[test]
fn a_bluetooth_rate_is_offered_rather_than_refused() {
    let app = settings_app();
    let rows = device_rows(60, &glyphs(), &app.input_devices, 0, &None, true, "");
    assert!(text(&rows[1]).contains("16 kHz"), "resampling handles it: {}", text(&rows[1]));
    assert!(!text(&rows[1]).contains("unavailable"), "{}", text(&rows[1]));
}

#[test]
fn with_nothing_named_active_the_default_is_the_one_in_use() {
    let app = settings_app();
    let rows = device_rows(60, &glyphs(), &app.input_devices, 1, &None, true, "");
    assert!(text(&rows[0]).contains("in use · 48 kHz"), "{}", text(&rows[0]));
    assert!(text(&rows[1]).contains(glyphs().cursor), "{}", text(&rows[1]));
}

fn drawn(width: u16, filled: usize, mark: Option<usize>, calibrating: bool, sending: bool) -> String {
    let cells = meter_cells(width, calibrating, sending);
    text(&meter_row(cells, filled, mark, calibrating, sending, &glyphs()))
}

#[test]
fn the_meter_says_whether_the_voice_is_getting_through() {
    assert!(drawn(60, 1, Some(5), false, false).contains("too quiet"));
    assert!(drawn(60, 20, Some(5), false, true).contains("sending"));
}

#[test]
fn moving_the_gate_moves_the_mark() {
    let low = drawn(60, 0, Some(5), false, false).find('|').expect("the mark must be on the meter");
    let high = drawn(60, 0, Some(16), false, false).find('|').expect("the mark must still be there");
    assert!(high > low, "the mark has to follow the setting: {low} then {high}");
}

#[test]
fn the_mark_survives_a_loud_voice() {
    let cells = meter_cells(60, false, true);
    assert!(drawn(60, cells, Some(8), false, true).contains('|'), "the floor matters most when the meter is full");
}

#[test]
fn a_gate_at_the_bottom_has_no_mark_to_draw() {
    assert!(!drawn(60, 10, None, false, true).contains('|'));
}

#[test]
fn the_meter_warms_and_then_warns_near_the_top() {
    let row = meter_row(METER_CELLS, METER_CELLS, None, false, true, &glyphs());
    let cells = &row[1..METER_CELLS + 1];
    assert_eq!(cells[0].tone, Tone::Holding);
    assert_eq!(cells[16].tone, Tone::Brass);
    assert_eq!(cells[23].tone, Tone::Alarm);
    assert_eq!(cells[15].tone, Tone::Holding);
}

#[test]
fn a_pane_too_narrow_for_the_bar_still_gives_the_verdict() {
    assert_eq!(meter_cells(10, false, false), 0);
    assert_eq!(drawn(10, 0, None, false, false), "  too quiet to send");
    assert_eq!(meter_cells(200, false, false), METER_CELLS);
}

fn reading() -> MicReading {
    MicReading { left_secs: None, calibrating: false, gate_percent: Some(25) }
}

fn test_text(width: u16, app: &App, reading: MicReading, row: usize) -> String {
    text(&test_rows(width, app, reading, Vec::new(), '…')[row])
}

#[test]
fn each_stage_of_the_test_names_itself() {
    let mut app = settings_app();
    app.toggle_recorded_test();
    assert!(test_text(70, &app, reading(), 1).contains("recording"));

    app.finish_mic_test_stage();
    assert!(test_text(70, &app, reading(), 1).contains("playing it back"));
}

#[test]
fn a_recording_counts_down_in_whole_seconds() {
    let mut app = settings_app();
    app.toggle_recorded_test();
    let counting = MicReading { left_secs: Some(2), ..reading() };
    assert!(test_text(70, &app, counting, 1).contains("recording… 3"), "{}", test_text(70, &app, counting, 1));
}

#[test]
fn a_cut_off_monitor_says_what_happened_and_what_to_do() {
    let mut app = settings_app();
    app.fed_back = true;
    let row = test_text(90, &app, reading(), 1);
    assert!(row.contains("fed back"), "{row}");
    assert!(row.contains("headphones"), "it has to say what to do about it: {row}");
    assert!(!row.contains('…'), "and it must fit rather than be cut off mid-advice: {row}");
}

#[test]
fn live_monitoring_is_offered_only_while_nothing_is_running() {
    let mut app = settings_app();
    assert!(test_text(90, &app, reading(), 1).contains("listen live"));

    app.toggle_recorded_test();
    assert!(!test_text(90, &app, reading(), 1).contains("listen live"), "one thing at a time");
}

#[test]
fn the_keyboard_section_says_whether_it_is_on_and_how_loud() {
    let off = typing_rows(70, false, Some(40), '…');
    assert!(text(&off[0]).contains("off"), "{}", text(&off[0]));
    assert!(!text(&off[1]).contains('%'), "a volume for a thing that is off is noise: {}", text(&off[1]));

    let on = typing_rows(70, true, Some(40), '…');
    assert!(text(&on[0]).contains("on"), "{}", text(&on[0]));
    assert!(text(&on[1]).contains("40%"), "{}", text(&on[1]));

    assert!(text(&typing_rows(70, true, None, '…')[1]).contains("silent"));
}

#[test]
fn the_keyboard_rows_fit_a_narrow_pane() {
    for width in [30, 45, 70] {
        for row in typing_rows(width, true, Some(40), '…') {
            assert!(text(&row).chars().count() <= width as usize, "{}", text(&row));
        }
    }
}

#[test]
fn the_floor_row_says_where_it_is_set() {
    let app = settings_app();
    let row = test_text(70, &app, reading(), 0);
    assert!(row.contains("25%"), "{row}");
    assert!(row.contains("measure the room"), "{row}");

    let off = test_text(70, &app, MicReading { gate_percent: None, ..reading() }, 0);
    assert!(off.contains("nothing is ignored"), "{off}");
}

#[test]
fn a_measurement_in_progress_says_what_it_is_doing() {
    let app = settings_app();
    let measuring = MicReading { calibrating: true, ..reading() };
    let row = test_text(70, &app, measuring, 0);
    assert!(row.contains("listening to the room"), "{row}");
    assert!(!row.contains("measure the room"), "{row}");
    assert!(drawn(60, 3, Some(4), true, false).contains("hold still"));
}

#[test]
fn the_test_names_its_own_state() {
    let mut app = settings_app();
    assert!(test_text(60, &app, reading(), 1).contains("ready"));

    app.toggle_monitor();
    let row = test_text(60, &app, reading(), 1);
    assert!(row.contains("listen live"), "the row names the control that is running: {row}");
    assert!(row.trim_start().starts_with('m'), "and the key that stops it: {row}");
    for width in [30, 40, 53, 80] {
        for row in test_rows(width, &app, reading(), Vec::new(), '…') {
            assert!(text(&row).chars().count() <= width as usize, "a control must fit its section at {width}: {:?}", text(&row));
        }
    }
}

// ── The one-line summary ────────────────────────────────────────────────────────

#[test]
fn link_summary_shows_hints_when_there_is_nothing_to_report() {
    let mut app = App::new(PeerId([1; 32]), "code".into());
    assert!(link_summary(&app).contains("F2"));

    app.voice_available = true;
    assert!(link_summary(&app).contains("F2"), "shortcuts show even with no peers");
}

#[test]
fn link_summary_changes_in_settings_mode() {
    let mut app = App::new(PeerId([1; 32]), "code".into());
    app.view_mode = ViewMode::Settings;
    assert!(link_summary(&app).contains("Esc back"));
}

#[test]
fn link_summary_reports_the_link_and_the_dropouts() {
    let mut app = App::new(PeerId([1; 32]), "code".into());
    app.voice_available = true;
    app.link = LinkStatus { direct: 2, relayed: 1, worst_rtt: Some(35) };
    app.audio_dropouts = 1;
    assert_eq!(link_summary(&app), "1 relay · 2 direct · 35ms · ⚠ 1 dropout");
    app.audio_dropouts = 3;
    assert!(link_summary(&app).ends_with("3 dropouts"));
}

#[test]
fn a_section_keeps_only_the_rows_that_fit_under_its_chip() {
    let rows = vec![
        vec![Segment { text: "one".into(), tone: Tone::Text }],
        vec![Segment { text: "two".into(), tone: Tone::Text }],
        vec![Segment { text: "three".into(), tone: Tone::Text }],
    ];
    let shown = section("CHANNELS", false, rows, 3);
    assert_eq!(shown.len(), 3);
    assert_eq!(text(&shown[0]), "  CHANNELS ");
    assert_eq!(text(&shown[2]), "two");
    assert!(section("CHANNELS", false, Vec::new(), 0).is_empty());
}

#[test]
fn the_clock_is_a_time_of_day_or_dashes() {
    for at in [0, 1_700_000_000, 86_399, u64::MAX] {
        let shown = clock(at);
        if shown == "--:--" {
            continue;
        }
        let digits: Vec<u32> = shown.chars().filter_map(|c| c.to_digit(10)).collect();
        assert_eq!(digits.len(), 4, "{shown}");
        assert!(digits[0] * 10 + digits[1] <= 23, "{shown}");
        assert!(digits[2] * 10 + digits[3] <= 59, "{shown}");
    }
}
