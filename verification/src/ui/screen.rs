//! What each part of the screen says: rows of text, each piece carrying the role it
//! plays (dim, strong, the accent, a chip...). Which colour or weight a role gets, and
//! putting the rows on the terminal, stay outside the library.
use vstd::prelude::*;
use vstd::string::StringExecFns;

use chrono::TimeZone;

use crate::proto::PeerId;
use crate::text::chars_of;
use crate::ui::layout::{
    clip, clip_spec, columns, fold, fold_spec, headings, heads_block, last_speaker, name_column,
    name_column_spec, pad, pad_left, spaces, AFTER_NAME, COLUMNS_TIGHT, COLUMNS_WIDE, TIGHT_UNDER,
};
use crate::proto::PeerInfo;
use crate::room::ascii_lower;
use crate::text::{decimal, decimal_wide};
use crate::ui::layout::{margin_for, DIAGRAM_MAX};
use crate::ui::state::{peers_in_of, visible_of, App};
use crate::ui::ViewMode;
use crate::audio::device::AudioDeviceInfo;
use crate::audio::MicTest;
use crate::proto::ChannelId;
use crate::ui::strand::{label, label_spec, strand_of, strand_spec, unbroken, unbroken_spec};
use crate::ui::theme::{Glyphs, Strand};
use crate::ui::Line;

verus! {

/// The role a piece of text plays on screen. The theme decides how each one looks.
#[derive(Debug, Clone, Copy, PartialEq, Eq, Structural)]
pub enum Tone {
    /// No style of its own: air between things.
    Plain,
    /// Body text.
    Text,
    /// Body text, set heavier.
    Strong,
    /// Everything secondary.
    Dim,
    /// What is active: the cursor, the channel you are in.
    Accent,
    /// The string, the invite code, something waiting to be read.
    Brass,
    /// A link that is holding, a device in use.
    Holding,
    /// Errors, and audio that is breaking up.
    Alarm,
    /// A section name.
    Chip,
    /// The name of the section you are working in.
    ChipOn,
    /// The link chip in the header, coloured by what the string is doing.
    ChipLink(Strand),
}

/// A run of text in one role.
pub struct Segment {
    pub text: String,
    pub tone: Tone,
}

impl DeepView for Segment {
    type V = (Seq<char>, Tone);

    open spec fn deep_view(&self) -> (Seq<char>, Tone) {
        (self.text@, self.tone)
    }
}

/// A run of text in one role.
pub fn segment(text: String, tone: Tone) -> (r: Segment)
    ensures
        r.deep_view() == (text@, tone),
{
    Segment { text, tone }
}

/// Air: text with no role.
pub fn raw(text: &str) -> (r: Segment)
    ensures
        r.deep_view() == (text@, Tone::Plain),
{
    Segment { text: text.to_owned(), tone: Tone::Plain }
}

/// A row as the terminal shows it: each piece's text, one after the other.
pub open spec fn row_text(row: Seq<(Seq<char>, Tone)>) -> Seq<char>
    decreases row.len(),
{
    if row.len() == 0 {
        Seq::empty()
    } else {
        row_text(row.drop_last()) + row.last().0
    }
}

/// How many columns the terminal gives a text, as the interface measures a span:
/// by Unicode display width. A wide character takes two columns, a combining mark none.
pub uninterp spec fn display_width(text: Seq<char>) -> nat;

/// The columns a text takes on the terminal.
///
/// Calls ratatui's `Span::width`, which measures its content with `unicode-width`.
/// Trusted: the result is `display_width` of the text, a function of the text alone;
/// and a text of printable ASCII takes one column a character, as unicode-width's
/// rules give every such character width 1 and form no ligature of them. Nothing
/// more of the Unicode width tables is stated.
#[verifier::external_body]
fn columns_of(text: &str) -> (r: usize)
    ensures
        r == display_width(text@),
        (forall|i: int| 0 <= i < text@.len() ==> ' ' <= #[trigger] text@[i] && text@[i] <= '~') ==> r
            == text@.len(),
{
    ratatui::text::Span::raw(text).width()
}

/// The columns a row takes.
pub open spec fn row_width(row: Seq<(Seq<char>, Tone)>) -> nat
    decreases row.len(),
{
    if row.len() == 0 {
        0
    } else {
        row_width(row.drop_last()) + display_width(row.last().0)
    }
}

proof fn lemma_row_width_concat(a: Seq<(Seq<char>, Tone)>, b: Seq<(Seq<char>, Tone)>)
    ensures
        row_width(a + b) == row_width(a) + row_width(b),
    decreases b.len(),
{
    if b.len() > 0 {
        assert((a + b).drop_last() =~= a + b.drop_last());
        lemma_row_width_concat(a, b.drop_last());
    } else {
        assert(a + b =~= a);
    }
}

/// The columns a row takes, or `cap` if it takes more.
fn capped_width(row: &Vec<Segment>, cap: usize) -> (r: usize)
    ensures
        r == (if row_width(row.deep_view()) < cap { row_width(row.deep_view()) } else { cap as nat }),
{
    let ghost all = row.deep_view();
    let mut used: usize = 0;
    let mut i: usize = 0;
    while i < row.len()
        invariant
            i <= row@.len(),
            all == row.deep_view(),
            used == (if row_width(all.take(i as int)) < cap { row_width(all.take(i as int)) } else { cap as nat }),
        decreases row@.len() - i,
    {
        let w = columns_of(row[i].text.as_str());
        assert(all.take(i + 1).drop_last() =~= all.take(i as int));
        assert(all[i as int] == row@[i as int].deep_view());
        if used < cap {
            if w < cap - used {
                used = used + w;
            } else {
                used = cap;
            }
        }
        i = i + 1;
    }
    assert(all.take(i as int) =~= all);
    used
}

/// `more` added to the end of `out`.
fn push_all(out: &mut Vec<Segment>, more: Vec<Segment>)
    ensures
        final(out).deep_view() == old(out).deep_view() + more.deep_view(),
{
    let mut more = more;
    let ghost tail = more.deep_view();
    out.append(&mut more);
    assert(out.deep_view() =~= old(out).deep_view() + tail);
}

/// `count` spaces with no role.
fn air(count: usize) -> (r: Segment)
    ensures
        r.deep_view() == (spaces(count as nat), Tone::Plain),
{
    let mut text = String::new();
    let mut k: usize = 0;
    while k < count
        invariant
            k <= count,
            text@ == spaces(k as nat),
        decreases count - k,
    {
        text.append(" ");
        k = k + 1;
        proof {
            reveal_strlit(" ");
            assert(text@ =~= spaces(k as nat));
        }
    }
    Segment { text, tone: Tone::Plain }
}

/// `left` against the left edge and `right` against the right. When the two do not
/// both fit, the right-hand side is dropped rather than run over the edge.
pub open spec fn spread_spec(
    width: nat,
    left: Seq<(Seq<char>, Tone)>,
    right: Seq<(Seq<char>, Tone)>,
) -> Seq<(Seq<char>, Tone)> {
    let used = row_width(left + right);
    if used < width {
        left.push((spaces((width - used) as nat), Tone::Plain)) + right
    } else {
        left
    }
}

/// Puts `right` against the right edge, `left` against the left.
pub fn spread(width: u16, left: Vec<Segment>, right: Vec<Segment>) -> (r: Vec<Segment>)
    ensures
        r.deep_view() == spread_spec(width as nat, left.deep_view(), right.deep_view()),
{
    let cap = width as usize;
    let a = capped_width(&left, cap);
    let b = capped_width(&right, cap);
    proof {
        lemma_row_width_concat(left.deep_view(), right.deep_view());
    }
    let used = if a + b < cap { a + b } else { cap };
    if used < cap {
        let mut out = left;
        let ghost before = out.deep_view();
        out.push(air(cap - used));
        assert(out.deep_view() =~= before.push((spaces((cap - used) as nat), Tone::Plain)));
        push_all(&mut out, right);
        out
    } else {
        left
    }
}

/// The chip that names a section, then its rows, as many as fit under it in `height`
/// rows.
pub open spec fn section_spec(
    label: Seq<char>,
    focused: bool,
    rows: Seq<Seq<(Seq<char>, Tone)>>,
    height: nat,
) -> Seq<Seq<(Seq<char>, Tone)>> {
    if height == 0 {
        Seq::empty()
    } else {
        let head = seq![(" "@, Tone::Plain), (seq![' '] + label + seq![' '], if focused { Tone::ChipOn } else { Tone::Chip })];
        let room = (height - 1) as int;
        seq![head] + rows.take(if rows.len() < room { rows.len() as int } else { room })
    }
}

/// A named section: the chip, then its rows, then whatever space is left.
pub fn section(label: &str, focused: bool, rows: Vec<Vec<Segment>>, height: u16) -> (r: Vec<Vec<Segment>>)
    ensures
        r.deep_view() == section_spec(label@, focused, rows.deep_view(), height as nat),
{
    if height == 0 {
        let out: Vec<Vec<Segment>> = Vec::new();
        assert(out.deep_view() =~= Seq::<Seq<(Seq<char>, Tone)>>::empty());
        return out;
    }
    let mut chip = String::new();
    chip.append(" ");
    chip.append(label);
    chip.append(" ");
    proof {
        reveal_strlit(" ");
        assert(chip@ =~= seq![' '] + label@ + seq![' ']);
    }
    let head = vec![raw(" "), segment(chip, if focused { Tone::ChipOn } else { Tone::Chip })];
    let room = (height - 1) as usize;
    let mut rows = rows;
    let ghost all = rows.deep_view();
    if rows.len() > room {
        rows.truncate(room);
    }
    let ghost kept = rows.deep_view();
    assert(kept =~= all.take(if all.len() < room { all.len() as int } else { room as int }));
    let ghost head_v = seq![(" "@, Tone::Plain), (seq![' '] + label@ + seq![' '], if focused { Tone::ChipOn } else { Tone::Chip })];
    assert(head.deep_view() =~= head_v);
    let mut out = vec![head];
    let ghost first = out.deep_view();
    assert(first =~= seq![head_v]);
    out.append(&mut rows);
    assert(out.deep_view() =~= first + kept);
    out
}

// ── The transcript ──────────────────────────────────────────────────────────────

/// The wall-clock time of a moment, as hours and minutes in the machine's time zone.
///
/// Calls chrono's `Local::timestamp_opt` and formats the single answer with `%H:%M`;
/// `None` when the time zone gives no single answer. Trusted: chrono documents `%H` as
/// the hour 00–23 and `%M` as the minute 00–59, each two zero-padded digits, so the
/// text is a time of day with the colon in the middle. Which hours and minutes depends
/// on the machine's time zone and is not stated.
#[verifier::external_body]
fn local_time(at: u64) -> (r: Option<String>)
    ensures
        r matches Some(text) ==> is_time_of_day(text@),
{
    match chrono::Local.timestamp_opt(at as i64, 0) {
        chrono::LocalResult::Single(time) => Some(time.format("%H:%M").to_string()),
        chrono::LocalResult::Ambiguous(_, _) => None,
        chrono::LocalResult::None => None,
    }
}

/// A clock reading of the form the transcript shows.
pub open spec fn is_clock(text: Seq<char>) -> bool {
    text.len() == 5 && text[2] == ':'
}

/// A decimal digit.
pub open spec fn is_digit(c: char) -> bool {
    '0' <= c && c <= '9'
}

/// The number a decimal digit stands for.
pub open spec fn digit_value(c: char) -> int {
    c as int - '0' as int
}

/// `HH:MM`: an hour from 00 to 23 and a minute from 00 to 59, each two digits.
pub open spec fn is_time_of_day(text: Seq<char>) -> bool {
    &&& is_clock(text)
    &&& is_digit(text[0]) && is_digit(text[1]) && is_digit(text[3]) && is_digit(text[4])
    &&& digit_value(text[0]) * 10 + digit_value(text[1]) <= 23
    &&& digit_value(text[3]) * 10 + digit_value(text[4]) <= 59
}

/// When a line was written, as `HH:MM` in the local time zone, or `--:--` when the
/// moment has no single local time.
pub fn clock(at: u64) -> (r: String)
    ensures
        is_clock(r@),
        is_time_of_day(r@) || r@ == "--:--"@,
{
    match local_time(at) {
        Some(text) => text,
        None => {
            let r = String::from_str("--:--");
            proof {
                reveal_strlit("--:--");
            }
            r
        },
    }
}

/// The name shown for an identity: the one remembered for it, or its short id.
pub open spec fn shown_name(names: Map<PeerId, Seq<char>>, id: PeerId) -> Seq<char> {
    if names.contains_key(id) {
        names[id]
    } else {
        id.short_spec()
    }
}

/// The length of the shown name of each message's author, in order. Notices have no
/// author.
pub open spec fn speaker_widths(lines: Seq<Line>, names: Map<PeerId, Seq<char>>) -> Seq<usize>
    decreases lines.len(),
{
    if lines.len() == 0 {
        Seq::empty()
    } else {
        let rest = speaker_widths(lines.drop_last(), names);
        match lines.last() {
            Line::Chat(chat) => rest.push(shown_name(names, chat.from).len() as usize),
            Line::Notice { .. } => rest,
        }
    }
}

/// Text padded with spaces on the right to `width` characters.
pub open spec fn pad_spec(text: Seq<char>, width: nat) -> Seq<char> {
    text + spaces(if text.len() < width { (width - text.len()) as nat } else { 0 })
}

/// Text padded with spaces on the left to `width` characters.
pub open spec fn pad_left_spec(text: Seq<char>, width: nat) -> Seq<char> {
    spaces(if text.len() < width { (width - text.len()) as nat } else { 0 }) + text
}

/// The heading of a block: the time, the author's name set flush against what they
/// said (in the accent when it is you), and the gap after the name.
pub open spec fn heading_spec(clock: Seq<char>, name: Seq<char>, mine: bool, time: nat, names: nat, cut: char) -> Seq<(Seq<char>, Tone)> {
    seq![
        (pad_spec(clock, time), Tone::Dim),
        (pad_left_spec(clip_spec(name, names, cut), names), if mine { Tone::Accent } else { Tone::Strong }),
        (spaces(AFTER_NAME as nat), Tone::Plain),
    ]
}

/// Row `j` of a message: the heading or the blank gutter, then that part of the text.
pub open spec fn chat_row(j: int, parts: Seq<Seq<char>>, heading: Seq<(Seq<char>, Tone)>, gutter: nat) -> Seq<(Seq<char>, Tone)> {
    (if j == 0 { heading } else { seq![(spaces(gutter), Tone::Plain)] }).push((parts[j], Tone::Text))
}

/// Row `j` of a notice: its time on the first row, the mark that says the room wrote
/// it, and that part of the text, all dim.
pub open spec fn notice_row(j: int, parts: Seq<Seq<char>>, clock: Seq<char>, time: nat, names: nat, note: char) -> Seq<(Seq<char>, Tone)> {
    seq![
        (if j == 0 { pad_spec(clock, time) } else { spaces(time) }, Tone::Dim),
        (spaces(if names >= 1 { (names - 1) as nat } else { 0 }), Tone::Dim),
        (if j == 0 { seq![note, ' ', ' '] } else { spaces(3) }, Tone::Dim),
        (parts[j], Tone::Dim),
    ]
}

/// The rows of one line of the transcript, folded to `room` columns.
pub open spec fn block_spec(
    line: Line,
    heads: bool,
    clock: Seq<char>,
    names_v: Map<PeerId, Seq<char>>,
    me: PeerId,
    time: nat,
    names: nat,
    room: nat,
    note: char,
    cut: char,
) -> Seq<Seq<(Seq<char>, Tone)>> {
    let gutter = (time + names + AFTER_NAME) as nat;
    match line {
        Line::Chat(chat) => {
            let parts = fold_spec(chat.text@, room);
            let heading = if heads {
                heading_spec(clock, shown_name(names_v, chat.from), chat.from == me, time, names, cut)
            } else {
                seq![(spaces(gutter), Tone::Plain)]
            };
            Seq::new(parts.len(), |j: int| chat_row(j, parts, heading, gutter))
        },
        Line::Notice { text, .. } => {
            let parts = fold_spec(text@, room);
            Seq::new(parts.len(), |j: int| notice_row(j, parts, clock, time, names, note))
        },
    }
}

/// The rows of the first `k` lines.
pub open spec fn blocks_spec(
    visible: Seq<Line>,
    k: nat,
    clocks: Seq<Seq<char>>,
    names_v: Map<PeerId, Seq<char>>,
    me: PeerId,
    time: nat,
    names: nat,
    room: nat,
    note: char,
    cut: char,
) -> Seq<Seq<(Seq<char>, Tone)>>
    decreases k,
{
    if k == 0 {
        Seq::empty()
    } else {
        let i = k - 1;
        blocks_spec(visible, (k - 1) as nat, clocks, names_v, me, time, names, room, note, cut) + block_spec(
            visible[i],
            heads_block(last_speaker(visible.take(i)), visible[i]),
            clocks[i],
            names_v,
            me,
            time,
            names,
            room,
            note,
            cut,
        )
    }
}

/// The time column and the name column's ceiling for a pane this wide.
pub open spec fn columns_spec(width: u16) -> (usize, usize) {
    if width >= TIGHT_UNDER { COLUMNS_WIDE } else { COLUMNS_TIGHT }
}

/// The transcript of the channel on screen, `width` columns wide: each visible line in
/// order, `clocks[i]` being the time shown for the `i`th. Messages are set in columns
/// (time, who, what), a run of messages from one person keeps only the first heading,
/// and text is folded to what the gutter leaves, never less than eight columns.
pub open spec fn transcript_spec(width: u16, app: App, note: char, cut: char, clocks: Seq<Seq<char>>) -> Seq<Seq<(Seq<char>, Tone)>> {
    let visible = visible_of(app.lines@, app.viewing);
    let time = columns_spec(width).0;
    let names = name_column_spec(speaker_widths(visible, app.names_v()), columns_spec(width).1);
    let gutter = time + names + AFTER_NAME;
    let spare = if width >= gutter + 1 { width - (gutter + 1) } else { 0 };
    let room = if spare > 8 { spare } else { 8 };
    blocks_spec(visible, visible.len(), clocks, app.names_v(), app.me, time as nat, names as nat, room as nat, note, cut)
}

fn block_rows(
    line: &Line,
    heads: bool,
    clock: &str,
    app: &App,
    time: usize,
    names: usize,
    room: usize,
    note: char,
    cut: char,
) -> (r: Vec<Vec<Segment>>)
    requires
        time <= 100,
        names <= 100,
    ensures
        r.deep_view() == block_spec(*line, heads, clock@, app.names_v(), app.me, time as nat, names as nat, room as nat, note, cut),
{
    let gutter = time + names + AFTER_NAME;
    let ghost gutter_n = time + names + AFTER_NAME;
    let mut out: Vec<Vec<Segment>> = Vec::new();
    match line {
        Line::Chat(chat) => {
            let parts = fold(chat.text.as_str(), room);
            let ghost fs = fold_spec(chat.text@, room as nat);
            let ghost heading_v = if heads {
                heading_spec(clock@, shown_name(app.names_v(), chat.from), chat.from == app.me, time as nat, names as nat, cut)
            } else {
                seq![(spaces(gutter as nat), Tone::Plain)]
            };
            let mut j: usize = 0;
            while j < parts.len()
                invariant
                    j <= parts@.len(),
                    parts@.len() == fs.len(),
                    forall|k: int| 0 <= k < parts@.len() ==> (#[trigger] parts@[k])@ == fs[k],
                    gutter == time + names + AFTER_NAME,
                    heading_v == (if heads {
                        heading_spec(clock@, shown_name(app.names_v(), chat.from), chat.from == app.me, time as nat, names as nat, cut)
                    } else {
                        seq![(spaces(gutter as nat), Tone::Plain)]
                    }),
                    out.deep_view() == Seq::new(j as nat, |k: int| chat_row(k, fs, heading_v, gutter as nat)),
                decreases parts@.len() - j,
            {
                let mut row: Vec<Segment> = if j == 0 && heads {
                    let name = app.name_of(chat.from);
                    let mine = chat.from.same(&app.me);
                    let v = vec![
                        segment(pad(clock, time), Tone::Dim),
                        segment(pad_left(clip(name.as_str(), names, cut).as_str(), names), if mine { Tone::Accent } else { Tone::Strong }),
                        air(AFTER_NAME),
                    ];
                    assert(v.deep_view() =~= heading_v);
                    v
                } else {
                    let v = vec![air(gutter)];
                    assert(v.deep_view() =~= seq![(spaces(gutter as nat), Tone::Plain)]);
                    v
                };
                let ghost row0 = row.deep_view();
                row.push(segment(parts[j].clone(), Tone::Text));
                assert(row.deep_view() =~= row0.push((fs[j as int], Tone::Text)));
                assert(row.deep_view() =~= chat_row(j as int, fs, heading_v, gutter as nat));
                let ghost out0 = out.deep_view();
                out.push(row);
                assert(out.deep_view() =~= out0.push(chat_row(j as int, fs, heading_v, gutter as nat)));
                j = j + 1;
                assert(out.deep_view() =~= Seq::new(j as nat, |k: int| chat_row(k, fs, heading_v, gutter as nat)));
            }
        },
        Line::Notice { text, .. } => {
            let parts = fold(text.as_str(), room);
            let ghost fs = fold_spec(text@, room as nat);
            let mut j: usize = 0;
            while j < parts.len()
                invariant
                    j <= parts@.len(),
                    parts@.len() == fs.len(),
                    forall|k: int| 0 <= k < parts@.len() ==> (#[trigger] parts@[k])@ == fs[k],
                    names <= 100,
                    out.deep_view() == Seq::new(j as nat, |k: int| notice_row(k, fs, clock@, time as nat, names as nat, note)),
                decreases parts@.len() - j,
            {
                let head = if j == 0 {
                    segment(pad(clock, time), Tone::Dim)
                } else {
                    let a = air(time);
                    Segment { text: a.text, tone: Tone::Dim }
                };
                let mark = if j == 0 {
                    let mut m = String::new();
                    crate::text::push_char(&mut m, note);
                    m.append("  ");
                    proof {
                        reveal_strlit("  ");
                        assert(m@ =~= seq![note, ' ', ' ']);
                    }
                    Segment { text: m, tone: Tone::Dim }
                } else {
                    let a = air(3);
                    Segment { text: a.text, tone: Tone::Dim }
                };
                let gap = air(if names >= 1 { names - 1 } else { 0 });
                let row = vec![head, Segment { text: gap.text, tone: Tone::Dim }, mark, segment(parts[j].clone(), Tone::Dim)];
                assert(row.deep_view() =~= notice_row(j as int, fs, clock@, time as nat, names as nat, note));
                let ghost out0 = out.deep_view();
                out.push(row);
                assert(out.deep_view() =~= out0.push(notice_row(j as int, fs, clock@, time as nat, names as nat, note)));
                j = j + 1;
                assert(out.deep_view() =~= Seq::new(j as nat, |k: int| notice_row(k, fs, clock@, time as nat, names as nat, note)));
            }
        },
    }
    out
}

/// `more` added below the rows of `out`.
fn push_rows(out: &mut Vec<Vec<Segment>>, more: Vec<Vec<Segment>>)
    ensures
        final(out).deep_view() == old(out).deep_view() + more.deep_view(),
{
    let mut more = more;
    let ghost tail = more.deep_view();
    out.append(&mut more);
    assert(out.deep_view() =~= old(out).deep_view() + tail);
}

/// The transcript of the channel on screen, with `clocks[i]` shown as the time of the
/// `i`th visible line.
pub fn transcript_with(width: u16, app: &App, note: char, cut: char, clocks: &Vec<String>) -> (r: Vec<Vec<Segment>>)
    requires
        clocks@.len() == visible_of(app.lines@, app.viewing).len(),
    ensures
        r.deep_view() == transcript_spec(width, *app, note, cut, clocks.deep_view()),
{
    let (time, ceiling) = columns(width);
    let visible = app.visible_lines();
    let ghost vis = visible_of(app.lines@, app.viewing);
    let ghost names_v = app.names_v();
    assert(visible@.map_values(|l: &Line| *l) =~= vis);

    let mut widths: Vec<usize> = Vec::new();
    let mut i: usize = 0;
    while i < visible.len()
        invariant
            i <= visible@.len(),
            visible@.len() == vis.len(),
            forall|k: int| 0 <= k < visible@.len() ==> *(#[trigger] visible@[k]) == vis[k],
            names_v == app.names_v(),
            widths@ == speaker_widths(vis.take(i as int), names_v),
        decreases visible@.len() - i,
    {
        assert(vis.take(i + 1).drop_last() =~= vis.take(i as int));
        assert(vis.take(i + 1).last() == vis[i as int]);
        match visible[i] {
            Line::Chat(chat) => {
                let name = app.name_of(chat.from);
                widths.push(chars_of(name.as_str()).len());
            },
            Line::Notice { .. } => {},
        }
        i = i + 1;
    }
    assert(vis.take(i as int) =~= vis);
    let names = name_column(widths.as_slice(), ceiling);
    let gutter = time + names + AFTER_NAME;
    let w = width as usize;
    let spare = if w >= gutter + 1 { w - (gutter + 1) } else { 0 };
    let room = if spare > 8 { spare } else { 8 };
    let heads = headings(visible.as_slice());
    let ghost clocks_v = clocks.deep_view();

    let mut out: Vec<Vec<Segment>> = Vec::new();
    let mut i: usize = 0;
    while i < visible.len()
        invariant
            i <= visible@.len(),
            visible@.len() == vis.len(),
            clocks@.len() == vis.len(),
            clocks_v == clocks.deep_view(),
            heads@.len() == vis.len(),
            forall|k: int| 0 <= k < visible@.len() ==> *(#[trigger] visible@[k]) == vis[k],
            forall|k: int| 0 <= k < heads@.len() ==> #[trigger] heads@[k] == heads_block(
                last_speaker(visible@.take(k).map_values(|l: &Line| *l)),
                *visible@[k],
            ),
            time <= 100,
            names <= 100,
            out.deep_view() == blocks_spec(vis, i as nat, clocks_v, app.names_v(), app.me, time as nat, names as nat, room as nat, note, cut),
        decreases visible@.len() - i,
    {
        let line = visible[i];
        assert(visible@.take(i as int).map_values(|l: &Line| *l) =~= vis.take(i as int));
        assert(clocks_v[i as int] == clocks@[i as int]@);
        let block = block_rows(line, heads[i], clocks[i].as_str(), app, time, names, room, note, cut);
        push_rows(&mut out, block);
        i = i + 1;
    }
    out
}

/// The transcript of the channel on screen, `width` columns wide, each line's time
/// read from the machine's clock in its own time zone.
pub fn transcript(width: u16, app: &App, glyphs: &Glyphs) -> (r: Vec<Vec<Segment>>)
    ensures
        exists|clocks: Seq<Seq<char>>|
            {
                &&& clocks.len() == visible_of(app.lines@, app.viewing).len()
                &&& forall|i: int| 0 <= i < clocks.len() ==> is_clock(#[trigger] clocks[i])
                &&& r.deep_view() == transcript_spec(width, *app, glyphs.note, glyphs.cut, clocks)
            },
{
    let visible = app.visible_lines();
    let mut clocks: Vec<String> = Vec::new();
    let mut i: usize = 0;
    while i < visible.len()
        invariant
            i <= visible@.len(),
            clocks@.len() == i,
            forall|k: int| 0 <= k < i ==> is_clock(#[trigger] clocks@[k]@),
        decreases visible@.len() - i,
    {
        let at = match visible[i] {
            Line::Chat(chat) => chat.at,
            Line::Notice { at, .. } => *at,
        };
        clocks.push(clock(at));
        i = i + 1;
    }
    let r = transcript_with(width, app, glyphs.note, glyphs.cut, &clocks);
    let ghost cv = clocks.deep_view();
    assert forall|k: int| 0 <= k < cv.len() implies is_clock(#[trigger] cv[k]) by {
        assert(cv[k] == clocks@[k]@);
    }
    r
}

// ── The two cans ────────────────────────────────────────────────────────────────

/// The tin can, as wide as its own drawing.
pub const CAN_WIDTH: usize = 7;
/// How many rows the drawing of the cans takes.
pub const CANS_ROWS: usize = 5;
/// The air the drawing needs around it before it shares a pane with a conversation.
pub const CANS_GAP: usize = 4;
/// Under this width the two cans do not fit side by side.
pub const DIAGRAM_NEEDS_WIDTH: u16 = 48;
/// Under this height the drawing does not fit either.
pub const DIAGRAM_NEEDS_HEIGHT: u16 = 9;

/// `count` copies of `c`.
pub open spec fn repeat(c: char, count: nat) -> Seq<char> {
    Seq::new(count, |i: int| c)
}

fn repeat_char(c: char, count: usize) -> (r: String)
    ensures
        r@ == repeat(c, count as nat),
{
    let mut text = String::new();
    let mut k: usize = 0;
    while k < count
        invariant
            k <= count,
            text@ == repeat(c, k as nat),
        decreases count - k,
    {
        crate::text::push_char(&mut text, c);
        k = k + 1;
        assert(text@ =~= repeat(c, k as nat));
    }
    text
}

/// `a` then `b`.
fn joined(a: &str, b: &str) -> (r: String)
    ensures
        r@ == a@ + b@,
{
    let mut text = a.to_owned();
    text.append(b);
    text
}

/// The names of everyone else on the line, in roster order.
pub open spec fn others_names(peers: Seq<PeerInfo>, me: PeerId) -> Seq<Seq<char>>
    decreases peers.len(),
{
    if peers.len() == 0 {
        Seq::empty()
    } else if peers.last().id == me {
        others_names(peers.drop_last(), me)
    } else {
        others_names(peers.drop_last(), me).push(peers.last().name@)
    }
}

fn others(app: &App) -> (r: Vec<String>)
    ensures
        r.deep_view() == others_names(app.peers@, app.me),
{
    let mut out: Vec<String> = Vec::new();
    let mut i: usize = 0;
    while i < app.peers.len()
        invariant
            i <= app.peers@.len(),
            out.deep_view() == others_names(app.peers@.take(i as int), app.me),
        decreases app.peers@.len() - i,
    {
        assert(app.peers@.take(i + 1).drop_last() =~= app.peers@.take(i as int));
        let peer = &app.peers[i];
        if !peer.id.same(&app.me) {
            let ghost before = out.deep_view();
            out.push(peer.name.clone());
            assert(out.deep_view() =~= before.push(peer.name@));
        }
        i = i + 1;
    }
    assert(app.peers@.take(i as int) =~= app.peers@);
    out
}

/// The role the string's own colour plays in each state.
pub open spec fn strand_tone(strand: Strand) -> Tone {
    match strand {
        Strand::Idle => Tone::Dim,
        Strand::Taut => Tone::Holding,
        Strand::Slack => Tone::Brass,
        Strand::Frayed => Tone::Alarm,
    }
}

pub fn strand_tone_of(strand: Strand) -> (r: Tone)
    ensures
        r == strand_tone(strand),
{
    match strand {
        Strand::Idle => Tone::Dim,
        Strand::Taut => Tone::Holding,
        Strand::Slack => Tone::Brass,
        Strand::Frayed => Tone::Alarm,
    }
}

/// Text with ASCII capitals folded to lower case.
pub fn lowercase_ascii(text: &str) -> (r: String)
    ensures
        r@ == text@.map_values(|c: char| ascii_lower(c)),
{
    let chars = chars_of(text);
    let mut out = String::new();
    let mut i: usize = 0;
    while i < chars.len()
        invariant
            i <= chars@.len(),
            chars@ == text@,
            out@ == chars@.take(i as int).map_values(|c: char| ascii_lower(c)),
        decreases chars@.len() - i,
    {
        crate::text::push_char(&mut out, crate::room::lower_char(chars[i]));
        i = i + 1;
        assert(out@ =~= chars@.take(i as int).map_values(|c: char| ascii_lower(c)));
    }
    assert(chars@.take(i as int) =~= chars@);
    out
}

/// The link in words, measured when there is something to measure: the worst round
/// trip, then what the string is doing, in lower case.
pub open spec fn link_label_spec(app: App, recently_dropped: bool, dot: Seq<char>) -> Seq<char> {
    let words = label_spec(app.voice_available, strand_spec(app.voice_available, app.link, recently_dropped)).map_values(
        |c: char| ascii_lower(c),
    );
    match app.link.worst_rtt {
        Some(ms) => if app.link.direct + app.link.relayed > 0 {
            decimal(ms as nat) + "ms"@ + dot + words
        } else {
            words
        },
        None => words,
    }
}

pub fn link_label(app: &App, recently_dropped: bool, glyphs: &Glyphs) -> (r: String)
    ensures
        r@ == link_label_spec(*app, recently_dropped, glyphs.dot@),
{
    let strand = strand_of(app.voice_available, &app.link, recently_dropped);
    let words = lowercase_ascii(label(app.voice_available, strand));
    match app.link.worst_rtt {
        Some(ms) => if app.link.direct > 0 || app.link.relayed > 0 {
            let mut out = decimal_wide(ms);
            out.append("ms");
            out.append(glyphs.dot);
            out.append(words.as_str());
            proof {
                reveal_strlit("ms");
            }
            out
        } else {
            words
        },
        None => words,
    }
}

/// Text centred in `width` columns, cut first if it is too wide.
pub open spec fn centre_spec(text: Seq<char>, width: nat, cut: char) -> Seq<char> {
    let t = clip_spec(text, width, cut);
    let left = if t.len() < width { ((width - t.len()) / 2) as nat } else { 0 };
    pad_spec(spaces(left) + t, width)
}

pub fn centre(text: &str, width: usize, cut: char) -> (r: String)
    ensures
        r@ == centre_spec(text@, width as nat, cut),
{
    let t = clip(text, width, cut);
    let n = chars_of(t.as_str()).len();
    let left = if n < width { (width - n) / 2 } else { 0 };
    let a = air(left);
    let inner = joined(a.text.as_str(), t.as_str());
    pad(inner.as_str(), width)
}

/// The string between the cans: running out at a cut end when nobody holds the other
/// can, tied in a knot where a relay sits in the middle of it, whole otherwise.
pub open spec fn string_spec(gap: nat, knot: bool, hanging: bool, strand: Strand, string: char, knot_glyph: char, cut: char) -> Seq<(Seq<char>, Tone)> {
    let tone = strand_tone(strand);
    if hanging {
        let text = repeat(string, if gap >= 1 { (gap - 1) as nat } else { 0 }).push(cut);
        seq![(clip_spec(text, gap, cut), Tone::Dim)]
    } else if !knot || gap < 5 {
        seq![(repeat(string, gap), tone)]
    } else {
        let half = ((gap - 1) / 2) as nat;
        let rest = (gap - half - 1) as nat;
        seq![(repeat(string, half), tone), (seq![knot_glyph], Tone::Brass), (repeat(string, rest), tone)]
    }
}

pub fn string_between(gap: usize, knot: bool, hanging: bool, strand: Strand, glyphs: &Glyphs) -> (r: Vec<Segment>)
    ensures
        r.deep_view() == string_spec(gap as nat, knot, hanging, strand, glyphs.can.string, glyphs.can.knot, glyphs.cut),
{
    let glyph = glyphs.can.string;
    let tone = strand_tone_of(strand);
    if hanging {
        let mut text = repeat_char(glyph, if gap >= 1 { gap - 1 } else { 0 });
        crate::text::push_char(&mut text, glyphs.cut);
        let v = vec![segment(clip(text.as_str(), gap, glyphs.cut), Tone::Dim)];
        assert(v.deep_view() =~= string_spec(gap as nat, knot, hanging, strand, glyph, glyphs.can.knot, glyphs.cut));
        return v;
    }
    if !knot || gap < 5 {
        let v = vec![segment(repeat_char(glyph, gap), tone)];
        assert(v.deep_view() =~= string_spec(gap as nat, knot, hanging, strand, glyph, glyphs.can.knot, glyphs.cut));
        return v;
    }
    let half = (gap - 1) / 2;
    let mut k = String::new();
    crate::text::push_char(&mut k, glyphs.can.knot);
    assert(k@ =~= seq![glyphs.can.knot]);
    let rest = gap - half - 1;
    let v = vec![segment(repeat_char(glyph, half), tone), segment(k, Tone::Brass), segment(repeat_char(glyph, rest), tone)];
    assert(v.deep_view() =~= string_spec(gap as nat, knot, hanging, strand, glyph, glyphs.can.knot, glyphs.cut));
    v
}

/// A name centred over a can, cut to the can's width.
pub open spec fn over_spec(name: Seq<char>, cut: char) -> Seq<char> {
    let n = clip_spec(name, CAN_WIDTH as nat, cut);
    spaces(((CAN_WIDTH - n.len()) / 2) as nat) + n
}

fn over(name: &str, cut: char) -> (r: String)
    ensures
        r@ == over_spec(name@, cut),
{
    let n = clip(name, CAN_WIDTH, cut);
    proof {
        crate::ui::layout::lemma_clip_fits(name@, CAN_WIDTH as nat, cut);
    }
    let len = chars_of(n.as_str()).len();
    let left = air((CAN_WIDTH - len) / 2);
    joined(left.text.as_str(), n.as_str())
}

/// The columns the drawing spans, and the string's length between the cans.
pub open spec fn drawing_span(width: u16) -> nat {
    let w = width as int;
    (if w >= 4 { if w - 4 < DIAGRAM_MAX { w - 4 } else { DIAGRAM_MAX as int } } else { 0 }) as nat
}

pub open spec fn string_gap(width: u16) -> nat {
    let span = drawing_span(width);
    if span >= 2 * CAN_WIDTH { (span - 2 * CAN_WIDTH) as nat } else { 0 }
}

/// The margin that centres the drawing.
pub open spec fn drawing_margin(width: u16) -> Seq<char> {
    spaces(((width as int - drawing_span(width)) / 2) as nat)
}

/// The text, or nothing when `hidden`.
pub open spec fn unless(hidden: bool, text: Seq<char>) -> Seq<char> {
    if hidden { Seq::empty() } else { text }
}

/// The rows of the drawing, given where it starts, how long the string is, who holds
/// the far can (nobody when empty), the link in words and what the string is doing.
pub open spec fn names_row(margin: Seq<char>, gap: nat, far: Seq<char>, cut: char) -> Seq<(Seq<char>, Tone)> {
    seq![(margin, Tone::Plain), (pad_spec(over_spec("you"@, cut), (CAN_WIDTH + gap) as nat), Tone::Dim), (over_spec(far, cut), Tone::Dim)]
}

pub open spec fn lids_row(margin: Seq<char>, gap: nat, hanging: bool, lid: Seq<char>) -> Seq<(Seq<char>, Tone)> {
    let lid = seq![' '] + lid + seq![' '];
    seq![(margin, Tone::Plain), (pad_spec(lid, (CAN_WIDTH + gap) as nat), Tone::Brass), (unless(hanging, lid), Tone::Brass)]
}

pub open spec fn tops_row(margin: Seq<char>, gap: nat, hanging: bool, top: Seq<char>, label: Seq<char>, cut: char) -> Seq<(Seq<char>, Tone)> {
    seq![(margin, Tone::Plain), (top, Tone::Text), (centre_spec(label, gap, cut), Tone::Dim), (unless(hanging, top), Tone::Text)]
}

pub open spec fn bodies_row(margin: Seq<char>, gap: nat, hanging: bool, strand: Strand, g: Glyphs) -> Seq<(Seq<char>, Tone)> {
    seq![(margin, Tone::Plain), (g.can.body@, Tone::Text)] + string_spec(
        gap,
        strand == Strand::Slack,
        hanging,
        strand,
        g.can.string,
        g.can.knot,
        g.cut,
    ) + (if hanging { Seq::empty() } else { seq![(g.can.body@, Tone::Text)] })
}

pub open spec fn bottoms_row(margin: Seq<char>, gap: nat, hanging: bool, bottom: Seq<char>) -> Seq<(Seq<char>, Tone)> {
    seq![(margin, Tone::Plain), (pad_spec(bottom, (CAN_WIDTH + gap) as nat), Tone::Text), (unless(hanging, bottom), Tone::Text)]
}

/// Two cans and the string between them: what the room actually is. You on the left,
/// the first of the others on the right, the link written over the string. Exactly
/// `CANS_ROWS` rows.
pub open spec fn cans_spec(width: u16, app: App, recently_dropped: bool, g: Glyphs) -> Seq<Seq<(Seq<char>, Tone)>> {
    let others = others_names(app.peers@, app.me);
    let far = if others.len() > 0 { others[0] } else { Seq::<char>::empty() };
    let hanging = far.len() == 0;
    let strand = strand_spec(app.voice_available, app.link, recently_dropped);
    let margin = drawing_margin(width);
    let gap = string_gap(width);
    let label = link_label_spec(app, recently_dropped, g.dot@);
    seq![
        names_row(margin, gap, far, g.cut),
        lids_row(margin, gap, hanging, g.can.lid@),
        tops_row(margin, gap, hanging, g.can.top@, label, g.cut),
        bodies_row(margin, gap, hanging, strand, g),
        bottoms_row(margin, gap, hanging, g.can.bottom@),
    ]
}

fn text_unless(hidden: bool, text: &str) -> (r: String)
    ensures
        r@ == unless(hidden, text@),
{
    if hidden {
        String::new()
    } else {
        text.to_owned()
    }
}

fn names_row_of(width: u16, gap: usize, far: &str, cut: char) -> (r: Vec<Segment>)
    requires
        gap <= 100,
    ensures
        r.deep_view() == names_row(drawing_margin(width), gap as nat, far@, cut),
{
    proof {
        reveal_strlit("you");
    }
    let v = vec![
        segment(margin_for(width), Tone::Plain),
        segment(pad(over("you", cut).as_str(), CAN_WIDTH + gap), Tone::Dim),
        segment(over(far, cut), Tone::Dim),
    ];
    assert(v.deep_view() =~= names_row(drawing_margin(width), gap as nat, far@, cut));
    v
}

fn lids_row_of(width: u16, gap: usize, hanging: bool, lid: &str) -> (r: Vec<Segment>)
    requires
        gap <= 100,
    ensures
        r.deep_view() == lids_row(drawing_margin(width), gap as nat, hanging, lid@),
{
    let mut padded = String::new();
    padded.append(" ");
    padded.append(lid);
    padded.append(" ");
    proof {
        reveal_strlit(" ");
        assert(padded@ =~= seq![' '] + lid@ + seq![' ']);
    }
    let v = vec![
        segment(margin_for(width), Tone::Plain),
        segment(pad(padded.as_str(), CAN_WIDTH + gap), Tone::Brass),
        segment(text_unless(hanging, padded.as_str()), Tone::Brass),
    ];
    assert(v.deep_view() =~= lids_row(drawing_margin(width), gap as nat, hanging, lid@));
    v
}

fn tops_row_of(width: u16, gap: usize, hanging: bool, top: &str, label: &str, cut: char) -> (r: Vec<Segment>)
    ensures
        r.deep_view() == tops_row(drawing_margin(width), gap as nat, hanging, top@, label@, cut),
{
    let v = vec![
        segment(margin_for(width), Tone::Plain),
        segment(top.to_owned(), Tone::Text),
        segment(centre(label, gap, cut), Tone::Dim),
        segment(text_unless(hanging, top), Tone::Text),
    ];
    assert(v.deep_view() =~= tops_row(drawing_margin(width), gap as nat, hanging, top@, label@, cut));
    v
}

fn bodies_row_of(width: u16, gap: usize, hanging: bool, strand: Strand, glyphs: &Glyphs) -> (r: Vec<Segment>)
    ensures
        r.deep_view() == bodies_row(drawing_margin(width), gap as nat, hanging, strand, *glyphs),
{
    let mut row = vec![segment(margin_for(width), Tone::Plain), segment(glyphs.can.body.to_owned(), Tone::Text)];
    let ghost head = row.deep_view();
    assert(head =~= seq![(drawing_margin(width), Tone::Plain), (glyphs.can.body@, Tone::Text)]);
    push_all(&mut row, string_between(gap, strand == Strand::Slack, hanging, strand, glyphs));
    let ghost mid = row.deep_view();
    if !hanging {
        row.push(segment(glyphs.can.body.to_owned(), Tone::Text));
        assert(row.deep_view() =~= mid + seq![(glyphs.can.body@, Tone::Text)]);
    } else {
        assert(mid =~= mid + Seq::<(Seq<char>, Tone)>::empty());
    }
    row
}

fn bottoms_row_of(width: u16, gap: usize, hanging: bool, bottom: &str) -> (r: Vec<Segment>)
    requires
        gap <= 100,
    ensures
        r.deep_view() == bottoms_row(drawing_margin(width), gap as nat, hanging, bottom@),
{
    let v = vec![
        segment(margin_for(width), Tone::Plain),
        segment(pad(bottom, CAN_WIDTH + gap), Tone::Text),
        segment(text_unless(hanging, bottom), Tone::Text),
    ];
    assert(v.deep_view() =~= bottoms_row(drawing_margin(width), gap as nat, hanging, bottom@));
    v
}

#[verifier::rlimit(60)]
pub fn cans(width: u16, app: &App, recently_dropped: bool, glyphs: &Glyphs) -> (r: Vec<Vec<Segment>>)
    ensures
        r.deep_view() == cans_spec(width, *app, recently_dropped, *glyphs),
        r@.len() == CANS_ROWS,
{
    let others = others(app);
    let ghost others_v = others.deep_view();
    let far: &str = if others.len() > 0 { others[0].as_str() } else { "" };
    proof {
        reveal_strlit("");
        assert(far@ =~= (if others_v.len() > 0 { others_v[0] } else { Seq::<char>::empty() }));
    }
    let hanging = chars_of(far).len() == 0;
    let strand = strand_of(app.voice_available, &app.link, recently_dropped);
    let w = width as usize;
    let less = if w >= 4 { w - 4 } else { 0 };
    let span = if less < DIAGRAM_MAX { less } else { DIAGRAM_MAX };
    let gap = if span >= 2 * CAN_WIDTH { span - 2 * CAN_WIDTH } else { 0 };
    assert(gap == string_gap(width));
    let label = link_label(app, recently_dropped, glyphs);
    let out = vec![
        names_row_of(width, gap, far, glyphs.cut),
        lids_row_of(width, gap, hanging, glyphs.can.lid),
        tops_row_of(width, gap, hanging, glyphs.can.top, label.as_str(), glyphs.cut),
        bodies_row_of(width, gap, hanging, strand, glyphs),
        bottoms_row_of(width, gap, hanging, glyphs.can.bottom),
    ];
    assert(out.deep_view() =~= cans_spec(width, *app, recently_dropped, *glyphs));
    out
}

/// A channel's name, or `?` for one the room does not have.
pub open spec fn channel_name_spec(app: App, channel: crate::proto::ChannelId) -> Seq<char> {
    if (channel.0 as int) < app.channels@.len() {
        app.channels@[channel.0 as int]@
    } else {
        "?"@
    }
}

/// The link for a terminal too small to draw in: you, the string, the link in words,
/// the string, and who is on the other end.
pub open spec fn compact_spec(width: u16, app: App, recently_dropped: bool, g: Glyphs, others: Seq<Seq<char>>) -> Seq<Seq<(Seq<char>, Tone)>> {
    let far = if others.len() > 0 { others[0] } else { "nobody yet"@ };
    let text = "you "@ + seq![g.can.string, ' '] + link_label_spec(app, recently_dropped, g.dot@) + seq![' ', g.can.string, ' '] + far;
    seq![Seq::empty(), seq![(clip_spec(text, width as nat, g.cut), Tone::Dim)]]
}

pub fn compact(width: u16, app: &App, recently_dropped: bool, glyphs: &Glyphs, others: &[String]) -> (r: Vec<Vec<Segment>>)
    ensures
        r.deep_view() == compact_spec(width, *app, recently_dropped, *glyphs, others.deep_view()),
{
    let far: &str = if others.len() > 0 { others[0].as_str() } else { "nobody yet" };
    assert(far@ == (if others.deep_view().len() > 0 { others.deep_view()[0] } else { "nobody yet"@ }));
    let mut text = String::from_str("you ");
    crate::text::push_char(&mut text, glyphs.can.string);
    text.append(" ");
    text.append(link_label(app, recently_dropped, glyphs).as_str());
    text.append(" ");
    crate::text::push_char(&mut text, glyphs.can.string);
    text.append(" ");
    text.append(far);
    proof {
        reveal_strlit("you ");
        reveal_strlit(" ");
    }
    let blank: Vec<Segment> = Vec::new();
    let out = vec![blank, vec![segment(clip(text.as_str(), width as usize, glyphs.cut), Tone::Dim)]];
    let ghost spec = compact_spec(width, *app, recently_dropped, *glyphs, others.deep_view());
    assert(out.deep_view()[1] =~~= spec[1]);
    assert(out.deep_view() =~~= spec);
    out
}

/// What to do next, which depends on whether anyone is there: with nobody, the code to
/// send them; with somebody, how many more there are and the key that talks.
pub open spec fn closing_spec(margin: Seq<char>, app: App, others: Seq<Seq<char>>) -> Seq<Seq<(Seq<char>, Tone)>> {
    if others.len() == 0 {
        seq![
            seq![(margin, Tone::Plain), ("nobody on the line yet. send them this code:"@, Tone::Dim)],
            seq![(margin, Tone::Plain), (app.invite_code@, Tone::Brass)],
        ]
    } else {
        (if others.len() > 1 {
            seq![seq![(margin, Tone::Plain), ("and "@ + decimal((others.len() - 1) as nat) + " more on the line"@, Tone::Dim)]]
        } else {
            Seq::empty()
        }) + seq![seq![(margin, Tone::Plain), ("f2 talks in #"@ + channel_name_spec(app, app.viewing), Tone::Dim)]]
    }
}

pub fn closing(margin: &str, app: &App, others: &[String]) -> (r: Vec<Vec<Segment>>)
    ensures
        r.deep_view() == closing_spec(margin@, *app, others.deep_view()),
{
    let ghost spec = closing_spec(margin@, *app, others.deep_view());
    if others.len() == 0 {
        let out = vec![
            vec![raw(margin), segment(String::from_str("nobody on the line yet. send them this code:"), Tone::Dim)],
            vec![raw(margin), segment(app.invite_code.clone(), Tone::Brass)],
        ];
        assert(out.deep_view() =~~= spec);
        return out;
    }
    let mut out: Vec<Vec<Segment>> = Vec::new();
    if others.len() > 1 {
        let mut more = String::from_str("and ");
        more.append(crate::text::decimal_string((others.len() - 1) as u64).as_str());
        more.append(" more on the line");
        proof {
            reveal_strlit("and ");
            reveal_strlit(" more on the line");
        }
        out.push(vec![raw(margin), segment(more, Tone::Dim)]);
    }
    let mut talks = String::from_str("f2 talks in #");
    talks.append(app.channel_name(app.viewing));
    proof {
        reveal_strlit("f2 talks in #");
    }
    let ghost before = out.deep_view();
    out.push(vec![raw(margin), segment(talks, Tone::Dim)]);
    assert(out.deep_view() =~~= before.push(seq![(margin@, Tone::Plain), ("f2 talks in #"@ + channel_name_spec(*app, app.viewing), Tone::Dim)]));
    assert(out.deep_view() =~~= spec);
    out
}

/// `count` empty rows.
pub open spec fn blank_rows(count: nat) -> Seq<Seq<(Seq<char>, Tone)>> {
    Seq::new(count, |i: int| Seq::<(Seq<char>, Tone)>::empty())
}

fn blanks(count: usize) -> (r: Vec<Vec<Segment>>)
    ensures
        r.deep_view() == blank_rows(count as nat),
{
    let mut out: Vec<Vec<Segment>> = Vec::new();
    let mut k: usize = 0;
    while k < count
        invariant
            k <= count,
            out.deep_view() == blank_rows(k as nat),
        decreases count - k,
    {
        let ghost before = out.deep_view();
        let empty: Vec<Segment> = Vec::new();
        assert(empty.deep_view() =~= Seq::<(Seq<char>, Tone)>::empty());
        out.push(empty);
        assert(out.deep_view() =~= before.push(Seq::<(Seq<char>, Tone)>::empty()));
        k = k + 1;
        assert(out.deep_view() =~= blank_rows(k as nat));
    }
    out
}

/// The empty chat pane: the drawing, a little above centre where the eye looks first,
/// with what to do next under it; on a pane too small to draw in, the link in one line.
pub open spec fn diagram_spec(width: u16, height: u16, app: App, recently_dropped: bool, g: Glyphs) -> Seq<Seq<(Seq<char>, Tone)>> {
    let others = others_names(app.peers@, app.me);
    if width < DIAGRAM_NEEDS_WIDTH || height < DIAGRAM_NEEDS_HEIGHT {
        compact_spec(width, app, recently_dropped, g, others)
    } else {
        let rows = cans_spec(width, app, recently_dropped, g) + seq![Seq::empty()] + closing_spec(
            drawing_margin(width),
            app,
            others,
        );
        let padding = if rows.len() < height { ((height - rows.len()) / 3) as nat } else { 0 };
        blank_rows(padding) + rows
    }
}

pub fn diagram(width: u16, height: u16, app: &App, recently_dropped: bool, glyphs: &Glyphs) -> (r: Vec<Vec<Segment>>)
    ensures
        r.deep_view() == diagram_spec(width, height, *app, recently_dropped, *glyphs),
{
    let others = others(app);
    if width < DIAGRAM_NEEDS_WIDTH || height < DIAGRAM_NEEDS_HEIGHT {
        return compact(width, app, recently_dropped, glyphs, others.as_slice());
    }
    let mut rows = cans(width, app, recently_dropped, glyphs);
    let ghost first = rows.deep_view();
    rows.push(Vec::new());
    assert(rows.deep_view() =~~= first + seq![Seq::<(Seq<char>, Tone)>::empty()]);
    let margin = margin_for(width);
    push_rows(&mut rows, closing(margin.as_str(), app, others.as_slice()));
    let h = height as usize;
    let padding = if rows.len() < h { (h - rows.len()) / 3 } else { 0 };
    let mut out = blanks(padding);
    push_rows(&mut out, rows);
    out
}

/// The chat pane above the message field, `height` rows tall, with `clocks[i]` the time
/// shown for the `i`th visible line. An empty conversation is the drawing. Otherwise
/// the transcript hangs from the bottom, where the newest line is, and while it is
/// short enough to leave the top of a big pane empty the drawing stays up there,
/// centred in the air it fills.
pub open spec fn talk_spec(
    width: u16,
    height: u16,
    app: App,
    recently_dropped: bool,
    g: Glyphs,
    clocks: Seq<Seq<char>>,
) -> Seq<Seq<(Seq<char>, Tone)>> {
    let visible = visible_of(app.lines@, app.viewing);
    if visible.len() == 0 {
        diagram_spec(width, height, app, recently_dropped, g)
    } else {
        let lines = transcript_spec(width, app, g.note, g.cut, clocks);
        let h = height as int;
        let start = if lines.len() > h { lines.len() - h } else { 0 };
        let spare = if h > lines.len() { h - lines.len() } else { 0 };
        let top = if spare >= CANS_ROWS + CANS_GAP && width >= DIAGRAM_NEEDS_WIDTH {
            blank_rows(((spare - CANS_ROWS) / 2) as nat) + cans_spec(width, app, recently_dropped, g)
        } else {
            Seq::empty()
        };
        top + blank_rows((spare - top.len()) as nat) + lines.skip(start)
    }
}

/// The rows of `rows` from `start` on.
fn rows_from(rows: Vec<Vec<Segment>>, start: usize) -> (r: Vec<Vec<Segment>>)
    requires
        start <= rows@.len(),
    ensures
        r.deep_view() == rows.deep_view().skip(start as int),
{
    let mut rows = rows;
    let ghost all = rows.deep_view();
    let tail = rows.split_off(start);
    assert(tail.deep_view() =~= all.skip(start as int));
    tail
}

pub fn talk_rows_with(
    width: u16,
    height: u16,
    app: &App,
    recently_dropped: bool,
    glyphs: &Glyphs,
    clocks: &Vec<String>,
) -> (r: Vec<Vec<Segment>>)
    requires
        clocks@.len() == visible_of(app.lines@, app.viewing).len(),
    ensures
        r.deep_view() == talk_spec(width, height, *app, recently_dropped, *glyphs, clocks.deep_view()),
{
    let visible = app.visible_lines();
    if visible.len() == 0 {
        return diagram(width, height, app, recently_dropped, glyphs);
    }
    let lines = transcript_with(width, app, glyphs.note, glyphs.cut, clocks);
    let h = height as usize;
    let start = if lines.len() > h { lines.len() - h } else { 0 };
    let spare = if h > lines.len() { h - lines.len() } else { 0 };
    let mut shown: Vec<Vec<Segment>> = if spare >= CANS_ROWS + CANS_GAP && width >= DIAGRAM_NEEDS_WIDTH {
        let mut top = blanks((spare - CANS_ROWS) / 2);
        push_rows(&mut top, cans(width, app, recently_dropped, glyphs));
        assert(top@.len() == top.deep_view().len());
        top
    } else {
        let top: Vec<Vec<Segment>> = Vec::new();
        assert(top.deep_view() =~= Seq::<Seq<(Seq<char>, Tone)>>::empty());
        top
    };
    let ghost top_v = shown.deep_view();
    let filler = spare - shown.len();
    push_rows(&mut shown, blanks(filler));
    push_rows(&mut shown, rows_from(lines, start));
    shown
}

/// The chat pane above the message field, each line's time read from the machine's
/// clock in its own time zone.
pub fn talk_rows(width: u16, height: u16, app: &App, recently_dropped: bool, glyphs: &Glyphs) -> (r: Vec<Vec<Segment>>)
    ensures
        exists|clocks: Seq<Seq<char>>|
            {
                &&& clocks.len() == visible_of(app.lines@, app.viewing).len()
                &&& forall|i: int| 0 <= i < clocks.len() ==> is_clock(#[trigger] clocks[i])
                &&& r.deep_view() == talk_spec(width, height, *app, recently_dropped, *glyphs, clocks)
            },
{
    let visible = app.visible_lines();
    let mut clocks: Vec<String> = Vec::new();
    let mut i: usize = 0;
    while i < visible.len()
        invariant
            i <= visible@.len(),
            clocks@.len() == i,
            forall|k: int| 0 <= k < i ==> is_clock(#[trigger] clocks@[k]@),
        decreases visible@.len() - i,
    {
        let at = match visible[i] {
            Line::Chat(chat) => chat.at,
            Line::Notice { at, .. } => *at,
        };
        clocks.push(clock(at));
        i = i + 1;
    }
    let r = talk_rows_with(width, height, app, recently_dropped, glyphs, &clocks);
    let ghost cv = clocks.deep_view();
    assert forall|k: int| 0 <= k < cv.len() implies is_clock(#[trigger] cv[k]) by {
        assert(cv[k] == clocks@[k]@);
    }
    r
}

/// The message field: the channel it goes to, what you are typing (the end of it,
/// where the caret is, when it is longer than the field) or an invitation to type, and
/// the caret.
pub open spec fn field_spec(width: u16, app: App, caret: char) -> Seq<(Seq<char>, Tone)> {
    let prompt = " #"@ + channel_name_spec(app, app.viewing) + " "@;
    let room = if width >= prompt.len() + 1 { width - (prompt.len() + 1) } else { 0 };
    let typed = app.input@;
    let middle = if typed.len() == 0 {
        ("say something"@, Tone::Dim)
    } else {
        (typed.skip(if typed.len() > room { typed.len() - room } else { 0 }), Tone::Text)
    };
    seq![(prompt, Tone::Dim), middle, (seq![caret], Tone::Accent)]
}

/// The last `keep` characters of a text.
fn tail_chars(text: &str, keep: usize) -> (r: String)
    ensures
        r@ == text@.skip(if text@.len() > keep { text@.len() - keep } else { 0 }),
{
    let chars = chars_of(text);
    let from = if chars.len() > keep { chars.len() - keep } else { 0 };
    let mut out = String::new();
    let mut i: usize = from;
    while i < chars.len()
        invariant
            from <= i <= chars@.len(),
            chars@ == text@,
            out@ == chars@.subrange(from as int, i as int),
        decreases chars@.len() - i,
    {
        crate::text::push_char(&mut out, chars[i]);
        i = i + 1;
        assert(out@ =~= chars@.subrange(from as int, i as int));
    }
    assert(chars@.subrange(from as int, i as int) =~= text@.skip(from as int));
    out
}

pub fn field_row(width: u16, app: &App, glyphs: &Glyphs) -> (r: Vec<Segment>)
    ensures
        r.deep_view() == field_spec(width, *app, glyphs.caret),
{
    let mut prompt = String::from_str(" #");
    prompt.append(app.channel_name(app.viewing));
    prompt.append(" ");
    proof {
        reveal_strlit(" #");
        reveal_strlit(" ");
        reveal_strlit("say something");
    }
    let used = chars_of(prompt.as_str()).len();
    let w = width as usize;
    let room = if w > used { w - used - 1 } else { 0 };
    let middle = if chars_of(app.input.as_str()).len() == 0 {
        segment(String::from_str("say something"), Tone::Dim)
    } else {
        segment(tail_chars(app.input.as_str(), room), Tone::Text)
    };
    let mut caret = String::new();
    crate::text::push_char(&mut caret, glyphs.caret);
    let out = vec![segment(prompt, Tone::Dim), middle, segment(caret, Tone::Accent)];
    assert(out.deep_view() =~= field_spec(width, *app, glyphs.caret));
    out
}

// ── Marks that live in prose ────────────────────────────────────────────────────

/// `s` with every match of `pat`, scanning from the left, replaced by `with`.
pub open spec fn replaced(s: Seq<char>, pat: Seq<char>, with: Seq<char>) -> Seq<char>
    decreases s.len(),
{
    if pat.len() == 0 || s.len() == 0 {
        s
    } else if pat.len() <= s.len() && s.take(pat.len() as int) == pat {
        with + replaced(s.skip(pat.len() as int), pat, with)
    } else {
        seq![s[0]] + replaced(s.skip(1), pat, with)
    }
}

fn starts_at(chars: &Vec<char>, i: usize, pat: &Vec<char>) -> (r: bool)
    requires
        i <= chars@.len(),
    ensures
        r == (pat@.len() <= chars@.len() - i && chars@.skip(i as int).take(pat@.len() as int) == pat@),
{
    if pat.len() > chars.len() - i {
        return false;
    }
    let n = chars.len();
    let mut k: usize = 0;
    while k < pat.len()
        invariant
            n == chars@.len(),
            i <= chars@.len(),
            pat@.len() <= chars@.len() - i,
            k <= pat@.len(),
            forall|m: int| 0 <= m < k ==> chars@[i + m] == pat@[m],
        decreases pat@.len() - k,
    {
        assert(i + k < n);
        if chars[i + k] != pat[k] {
            assert(chars@.skip(i as int).take(pat@.len() as int)[k as int] != pat@[k as int]);
            return false;
        }
        k = k + 1;
    }
    assert(chars@.skip(i as int).take(pat@.len() as int) =~= pat@);
    true
}

/// `str::replace`: every match of `pat`, from the left, replaced by `with`.
pub fn replace_all(text: &str, pat: &str, with: &str) -> (r: String)
    requires
        pat@.len() > 0,
    ensures
        r@ == replaced(text@, pat@, with@),
{
    let chars = chars_of(text);
    let pattern = chars_of(pat);
    let mut out = String::new();
    let mut i: usize = 0;
    assert(chars@.skip(0) =~= text@);
    assert(out@ + replaced(chars@.skip(0), pat@, with@) =~= replaced(text@, pat@, with@));
    while i < chars.len()
        invariant
            i <= chars@.len(),
            chars@ == text@,
            pattern@ == pat@,
            pat@.len() > 0,
            out@ + replaced(chars@.skip(i as int), pat@, with@) == replaced(text@, pat@, with@),
        decreases chars@.len() - i,
    {
        let ghost rest = chars@.skip(i as int);
        if starts_at(&chars, i, &pattern) {
            assert(rest.skip(pat@.len() as int) =~= chars@.skip(i + pat@.len()));
            out.append(with);
            i = i + pattern.len();
        } else {
            assert(rest.skip(1) =~= chars@.skip(i + 1));
            crate::text::push_char(&mut out, chars[i]);
            assert(out@ + replaced(chars@.skip(i + 1), pat@, with@) =~= old_out_plus(out@, chars@[i as int], replaced(chars@.skip(i + 1), pat@, with@)));
            i = i + 1;
        }
    }
    assert(chars@.skip(i as int) =~= Seq::<char>::empty());
    out
}

spec fn old_out_plus(out: Seq<char>, c: char, rest: Seq<char>) -> Seq<char> {
    out + rest
}

/// The marks that live in prose, made plain for an ASCII terminal: the dot between
/// two facts becomes a dash, and the arrows become words.
pub open spec fn plainly_spec(text: Seq<char>, ascii: bool) -> Seq<char> {
    if ascii {
        replaced(replaced(text, " · "@, " - "@), "↑↓"@, "up/down"@)
    } else {
        text
    }
}

pub fn plainly(text: &str, ascii: bool) -> (r: String)
    ensures
        r@ == plainly_spec(text@, ascii),
{
    if ascii {
        proof {
            reveal_strlit(" · ");
            reveal_strlit("↑↓");
        }
        let once = replace_all(text, " · ", " - ");
        replace_all(once.as_str(), "↑↓", "up/down")
    } else {
        text.to_owned()
    }
}

// ── The rail ────────────────────────────────────────────────────────────────────

/// How much of a name the rail holds before it cuts it.
pub const NAME_ROOM: usize = 12;
/// How much of the right-hand tag the rail holds: exactly the two longest things it
/// ever says, "deafened" and "silenced".
pub const TAG_ROOM: usize = 8;

/// A mark that is there or is a blank.
pub open spec fn mark_spec(on: bool, glyph: char) -> Seq<char> {
    if on { seq![glyph] } else { " "@ }
}

fn mark(on: bool, glyph: char) -> (r: String)
    ensures
        r@ == mark_spec(on, glyph),
{
    if on {
        let mut m = String::new();
        crate::text::push_char(&mut m, glyph);
        assert(m@ =~= seq![glyph]);
        m
    } else {
        String::from_str(" ")
    }
}

/// A channel's row: the cursor where you are reading, the dot where you are talking
/// (different questions, so different columns), the name (strong where you read,
/// brass where something waits) and how many sit in it.
pub open spec fn channel_row(width: u16, app: App, index: int, g: Glyphs) -> Seq<(Seq<char>, Tone)> {
    let id = ChannelId(#[verifier::truncate] (index as u8));
    let reading = id == app.viewing && app.view_mode == ViewMode::Chat;
    let talking = app.voice == Some(id);
    let unread = app.unread@.contains(id);
    let here = peers_in_of(app.peers@, id).len();
    let left = seq![
        ("  "@, Tone::Plain),
        (mark_spec(reading, g.cursor), Tone::Accent),
        (" "@, Tone::Plain),
        (mark_spec(talking, g.on_air), Tone::Accent),
        (" "@, Tone::Plain),
        (clip_spec(app.channels@[index]@, NAME_ROOM as nat, g.cut), if reading { Tone::Strong } else if unread { Tone::Brass } else { Tone::Text }),
    ];
    let right = if here == 0 { seq![(" "@, Tone::Plain)] } else { seq![(decimal(here) + " "@, Tone::Dim)] };
    spread_spec(width as nat, left, right)
}

fn holds_channel(list: &Vec<ChannelId>, id: ChannelId) -> (r: bool)
    ensures
        r == list@.contains(id),
{
    let mut i: usize = 0;
    while i < list.len()
        invariant
            i <= list@.len(),
            forall|k: int| 0 <= k < i ==> list@[k] != id,
        decreases list@.len() - i,
    {
        if list[i].0 == id.0 {
            assert(list@[i as int] == id);
            return true;
        }
        i = i + 1;
    }
    false
}

pub fn channel_rows(width: u16, app: &App, glyphs: &Glyphs) -> (r: Vec<Vec<Segment>>)
    ensures
        r.deep_view() == Seq::new(app.channels@.len(), |i: int| channel_row(width, *app, i, *glyphs)),
{
    let mut out: Vec<Vec<Segment>> = Vec::new();
    let mut index: usize = 0;
    while index < app.channels.len()
        invariant
            index <= app.channels@.len(),
            out.deep_view() == Seq::new(index as nat, |i: int| channel_row(width, *app, i, *glyphs)),
        decreases app.channels@.len() - index,
    {
        let id = ChannelId(#[verifier::truncate] (index as u8));
        let reading = id.0 == app.viewing.0 && app.view_mode == ViewMode::Chat;
        let talking = match app.voice {
            Some(v) => v.0 == id.0,
            None => false,
        };
        let unread = holds_channel(&app.unread, id);
        let here = app.peers_in(id).len();
        proof {
            reveal_strlit("  ");
            reveal_strlit(" ");
        }
        let left = vec![
            raw("  "),
            segment(mark(reading, glyphs.cursor), Tone::Accent),
            raw(" "),
            segment(mark(talking, glyphs.on_air), Tone::Accent),
            raw(" "),
            segment(
                clip(app.channels[index].as_str(), NAME_ROOM, glyphs.cut),
                if reading { Tone::Strong } else if unread { Tone::Brass } else { Tone::Text },
            ),
        ];
        let right = if here == 0 {
            vec![raw(" ")]
        } else {
            let mut count = crate::text::decimal_string(here as u64);
            count.append(" ");
            let v = vec![segment(count, Tone::Dim)];
            assert(v.deep_view() =~= seq![(decimal(here as nat) + " "@, Tone::Dim)]);
            v
        };
        let ghost idx = index as int;
        let ghost left_v = seq![
            ("  "@, Tone::Plain),
            (mark_spec(reading, glyphs.cursor), Tone::Accent),
            (" "@, Tone::Plain),
            (mark_spec(talking, glyphs.on_air), Tone::Accent),
            (" "@, Tone::Plain),
            (clip_spec(app.channels@[idx]@, NAME_ROOM as nat, glyphs.cut), if reading { Tone::Strong } else if unread { Tone::Brass } else { Tone::Text }),
        ];
        assert(left.deep_view() =~= left_v);
        let ghost here_v = peers_in_of(app.peers@, id).len();
        assert(here as nat == here_v);
        let ghost right_v = if here_v == 0 { seq![(" "@, Tone::Plain)] } else { seq![(decimal(here_v) + " "@, Tone::Dim)] };
        assert(right.deep_view() =~= right_v);
        assert(id == ChannelId(#[verifier::truncate] (idx as u8)));
        let row = spread(width, left, right);
        assert(row.deep_view() =~= channel_row(width, *app, index as int, *glyphs));
        let ghost before = out.deep_view();
        let ghost row_v = row.deep_view();
        out.push(row);
        assert(out.deep_view() =~= before.push(row_v));
        index = index + 1;
        assert(out.deep_view() =~= Seq::new(index as nat, |i: int| channel_row(width, *app, i, *glyphs)));
    }
    out
}

/// How loud someone is played back, as far as the roster shows it: untouched, turned
/// down or up (with the level in percent), or silenced.
#[derive(Debug, Clone, Copy, PartialEq, Eq, Structural)]
pub enum Volume {
    Full,
    Lowered { percent: u32 },
    Raised { percent: u32 },
    Silenced,
}

/// What the rail shows beside one person: how loud they are right now (0 to 4, as the
/// audio engine publishes it) and how loud you hear them.
#[derive(Debug, Clone, Copy, PartialEq, Eq, Structural)]
pub struct PeerMark {
    pub level: u8,
    pub volume: Volume,
}

/// A meter step and its role: grey at rest, brass at the top where a voice starts to
/// clip, the holding green in between.
pub open spec fn meter_tone(level: u8) -> Tone {
    if level == 0 {
        Tone::Dim
    } else if level >= 4 {
        Tone::Brass
    } else {
        Tone::Holding
    }
}

/// The level of a volume that was moved, in percent.
pub open spec fn moved_percent(volume: Volume) -> Option<u32> {
    match volume {
        Volume::Lowered { percent } => Some(percent),
        Volume::Raised { percent } => Some(percent),
        _ => None,
    }
}

/// What the right-hand column says about someone: being deafened is the bigger fact,
/// then being muted, then being silenced by you; a volume you moved shows as a number
/// only while your cursor is on them; otherwise, the channel they sit in.
pub open spec fn person_tag(app: App, peer: PeerInfo, volume: Volume, selected: bool) -> Seq<char> {
    if peer.deafened {
        "deafened"@
    } else if peer.muted {
        "muted"@
    } else if volume == Volume::Silenced {
        "silenced"@
    } else if selected && moved_percent(volume) is Some {
        decimal(moved_percent(volume)->0 as nat) + "%"@
    } else {
        match peer.channel {
            Some(c) => channel_name_spec(app, c),
            None => Seq::empty(),
        }
    }
}

/// A person's row: the cursor if your keys act on them, their meter (a mark in its
/// place once silenced, grey once turned down), their name (strong while they talk),
/// "you" beside yourself, and the tag at the right edge.
pub open spec fn person_row(width: u16, app: App, peer: PeerInfo, m: PeerMark, g: Glyphs) -> Seq<(Seq<char>, Tone)> {
    let step = if m.level < 4 { m.level as int } else { 4 };
    let level = g.meter@[step]@;
    let (meter, tone) = match m.volume {
        Volume::Silenced => (g.silenced@, Tone::Dim),
        Volume::Lowered { .. } => (level, Tone::Dim),
        _ => (level, meter_tone(m.level)),
    };
    let selected = app.selected_peer == Some(peer.id);
    let talking = app.speaking@.contains(peer.id);
    let left = seq![
        ("  "@, Tone::Plain),
        (mark_spec(selected, g.cursor), Tone::Accent),
        (meter, tone),
        (" "@, Tone::Plain),
        (clip_spec(peer.name@, NAME_ROOM as nat, g.cut), if talking { Tone::Strong } else { Tone::Text }),
    ] + (if peer.id == app.me { seq![(" you"@, Tone::Dim)] } else { Seq::empty() });
    let right = seq![(clip_spec(person_tag(app, peer, m.volume, selected), TAG_ROOM as nat, g.cut), Tone::Dim), (" "@, Tone::Plain)];
    spread_spec(width as nat, left, right)
}

fn holds_peer(list: &Vec<PeerId>, id: &PeerId) -> (r: bool)
    ensures
        r == list@.contains(*id),
{
    let mut i: usize = 0;
    while i < list.len()
        invariant
            i <= list@.len(),
            forall|k: int| 0 <= k < i ==> list@[k] != *id,
        decreases list@.len() - i,
    {
        if list[i].same(id) {
            return true;
        }
        i = i + 1;
    }
    false
}

fn tag_of(app: &App, peer: &PeerInfo, volume: Volume, selected: bool) -> (r: String)
    ensures
        r@ == person_tag(*app, *peer, volume, selected),
{
    proof {
        reveal_strlit("deafened");
        reveal_strlit("muted");
        reveal_strlit("silenced");
        reveal_strlit("%");
    }
    if peer.deafened {
        String::from_str("deafened")
    } else if peer.muted {
        String::from_str("muted")
    } else if volume == Volume::Silenced {
        String::from_str("silenced")
    } else {
        let moved = match volume {
            Volume::Lowered { percent } => Some(percent),
            Volume::Raised { percent } => Some(percent),
            _ => None,
        };
        match moved {
            Some(percent) if selected => {
                let mut t = crate::text::decimal_string(percent as u64);
                t.append("%");
                t
            },
            _ => match peer.channel {
                Some(c) => app.channel_name(c).to_owned(),
                None => String::new(),
            },
        }
    }
}

fn person_row_of(width: u16, app: &App, peer: &PeerInfo, m: PeerMark, glyphs: &Glyphs) -> (r: Vec<Segment>)
    ensures
        r.deep_view() == person_row(width, *app, *peer, m, *glyphs),
{
    let level = glyphs.meter_step(m.level);
    let at_full = if m.level == 0 { Tone::Dim } else if m.level >= 4 { Tone::Brass } else { Tone::Holding };
    let (meter, tone) = match m.volume {
        Volume::Silenced => (glyphs.silenced, Tone::Dim),
        Volume::Lowered { .. } => (level, Tone::Dim),
        _ => (level, at_full),
    };
    let selected = match app.selected_peer {
        Some(s) => s.same(&peer.id),
        None => false,
    };
    let talking = holds_peer(&app.speaking, &peer.id);
    proof {
        reveal_strlit("  ");
        reveal_strlit(" ");
        reveal_strlit(" you");
    }
    let mut left = vec![
        raw("  "),
        segment(mark(selected, glyphs.cursor), Tone::Accent),
        segment(meter.to_owned(), tone),
        raw(" "),
        segment(clip(peer.name.as_str(), NAME_ROOM, glyphs.cut), if talking { Tone::Strong } else { Tone::Text }),
    ];
    let ghost head = left.deep_view();
    if peer.id.same(&app.me) {
        left.push(segment(String::from_str(" you"), Tone::Dim));
        assert(left.deep_view() =~= head + seq![(" you"@, Tone::Dim)]);
    } else {
        assert(head =~= head + Seq::<(Seq<char>, Tone)>::empty());
    }
    let tag = tag_of(app, peer, m.volume, selected);
    let right = vec![segment(clip(tag.as_str(), TAG_ROOM, glyphs.cut), Tone::Dim), raw(" ")];
    let ghost step = if m.level < 4 { m.level as int } else { 4 };
    assert(level@ == glyphs.meter@[step]@);
    let ghost left_v = seq![
        ("  "@, Tone::Plain),
        (mark_spec(selected, glyphs.cursor), Tone::Accent),
        (meter@, tone),
        (" "@, Tone::Plain),
        (clip_spec(peer.name@, NAME_ROOM as nat, glyphs.cut), if talking { Tone::Strong } else { Tone::Text }),
    ] + (if peer.id == app.me { seq![(" you"@, Tone::Dim)] } else { Seq::empty() });
    assert(left.deep_view() =~= left_v);
    assert(right.deep_view() =~= seq![(clip_spec(person_tag(*app, *peer, m.volume, selected), TAG_ROOM as nat, glyphs.cut), Tone::Dim), (" "@, Tone::Plain)]);
    let row = spread(width, left, right);
    assert(row.deep_view() =~= person_row(width, *app, *peer, m, *glyphs));
    row
}

/// The roster, one row a person, `marks[i]` being what to show beside the `i`th.
pub fn people_rows(width: u16, app: &App, glyphs: &Glyphs, marks: &[PeerMark]) -> (r: Vec<Vec<Segment>>)
    requires
        marks@.len() == app.peers@.len(),
    ensures
        r.deep_view() == Seq::new(app.peers@.len(), |i: int| person_row(width, *app, app.peers@[i], marks@[i], *glyphs)),
{
    let mut out: Vec<Vec<Segment>> = Vec::new();
    let mut i: usize = 0;
    while i < app.peers.len()
        invariant
            i <= app.peers@.len(),
            marks@.len() == app.peers@.len(),
            out.deep_view() == Seq::new(i as nat, |k: int| person_row(width, *app, app.peers@[k], marks@[k], *glyphs)),
        decreases app.peers@.len() - i,
    {
        let row = person_row_of(width, app, &app.peers[i], marks[i], glyphs);
        let ghost before = out.deep_view();
        let ghost row_v = row.deep_view();
        out.push(row);
        assert(out.deep_view() =~= before.push(row_v));
        i = i + 1;
        assert(out.deep_view() =~= Seq::new(i as nat, |k: int| person_row(width, *app, app.peers@[k], marks@[k], *glyphs)));
    }
    out
}

/// The name of the roster's chip: how many are on the line and, until you have moved
/// into the list, the keys that do it.
pub open spec fn people_heading_spec(app: App, dot: Seq<char>, ascii: bool) -> Seq<char> {
    let head = "ON THE LINE"@ + dot + decimal(app.peers@.len());
    if app.selected_peer is Some {
        head
    } else {
        head + dot + plainly_spec("↑↓"@, ascii)
    }
}

pub fn people_heading(app: &App, glyphs: &Glyphs, ascii: bool) -> (r: String)
    ensures
        r@ == people_heading_spec(*app, glyphs.dot@, ascii),
{
    let mut head = String::from_str("ON THE LINE");
    head.append(glyphs.dot);
    head.append(crate::text::decimal_string(app.peers.len() as u64).as_str());
    proof {
        reveal_strlit("ON THE LINE");
    }
    if app.selected_peer.is_none() {
        head.append(glyphs.dot);
        head.append(plainly("↑↓", ascii).as_str());
    }
    head
}

/// What you speak into and listen through: the first thing anyone checks when a call
/// goes wrong.
pub open spec fn audio_row(width: u16, label: Seq<char>, name: Option<String>, cut: char) -> Seq<(Seq<char>, Tone)> {
    let room = if width >= 8 { (width - 8) as nat } else { 0 };
    let text = match name {
        Some(n) => n@,
        None => "system default"@,
    };
    seq![("  "@, Tone::Plain), (label, Tone::Dim), ("  "@, Tone::Plain), (clip_spec(text, room, cut), Tone::Text)]
}

fn audio_row_of(width: u16, label: &str, name: &Option<String>, cut: char) -> (r: Vec<Segment>)
    ensures
        r.deep_view() == audio_row(width, label@, *name, cut),
{
    let room = if width >= 8 { (width - 8) as usize } else { 0 };
    let text = match name {
        Some(n) => n.clone(),
        None => String::from_str("system default"),
    };
    proof {
        reveal_strlit("system default");
        reveal_strlit("  ");
    }
    let v = vec![raw("  "), segment(label.to_owned(), Tone::Dim), raw("  "), segment(clip(text.as_str(), room, cut), Tone::Text)];
    assert(v.deep_view() =~= audio_row(width, label@, *name, cut));
    v
}

pub fn audio_rows(width: u16, app: &App, glyphs: &Glyphs) -> (r: Vec<Vec<Segment>>)
    ensures
        r.deep_view() == seq![
            audio_row(width, "mic"@, app.active_input_name, glyphs.cut),
            audio_row(width, "out"@, app.active_output_name, glyphs.cut),
        ],
{
    let v = vec![
        audio_row_of(width, "mic", &app.active_input_name, glyphs.cut),
        audio_row_of(width, "out", &app.active_output_name, glyphs.cut),
    ];
    assert(v.deep_view() =~= seq![
        audio_row(width, "mic"@, app.active_input_name, glyphs.cut),
        audio_row(width, "out"@, app.active_output_name, glyphs.cut),
    ]);
    v
}

// ── Header, footer and the string ───────────────────────────────────────────────

/// Wide enough for a three-cell meter, a name and the channel someone is in.
pub const RAIL_WIDTH: u16 = 28;
/// The string, with a column of air on each side.
pub const STRAND_WIDTH: u16 = 3;
/// Under this width the rail is dropped altogether: on a narrow terminal the talk wins.
pub const RAIL_NEEDS: u16 = 62;

/// Whether the screen has room for the rail and the string beside the talk, given its
/// width and the height of its body (between header and footer).
pub fn shows_rail(width: u16, body_height: u16) -> (r: bool)
    ensures
        r == (width >= RAIL_NEEDS && body_height >= 4),
{
    width >= RAIL_NEEDS && body_height >= 4
}

/// A three-cell level meter for a level from 0 to 4 (anything above reads as the top),
/// and its role.
pub fn meter(glyphs: &Glyphs, level: u8) -> (r: (&'static str, Tone))
    ensures
        r.0 == glyphs.meter@[if level < 4 { level as int } else { 4 }],
        r.1 == meter_tone(level),
{
    let tone = if level == 0 {
        Tone::Dim
    } else if level >= 4 {
        Tone::Brass
    } else {
        Tone::Holding
    };
    (glyphs.meter_step(level), tone)
}

/// The glyph the string is drawn with in a state, and its role.
pub fn strand_look(glyphs: &Glyphs, strand: Strand) -> (r: (char, Tone))
    ensures
        r.0 == glyphs.strand@[crate::ui::theme::strand_index(strand)],
        r.1 == strand_tone(strand),
{
    (glyphs.strand_glyph(strand), strand_tone_of(strand))
}

/// Who you are with and how well you reach them: the app's chip, the room, the channel
/// on screen; at the right edge a warning while audio drops, the link chip coloured by
/// the string, and the worst round trip.
pub open spec fn header_spec(width: u16, app: App, recently_dropped: bool) -> Seq<(Seq<char>, Tone)> {
    let strand = strand_spec(app.voice_available, app.link, recently_dropped);
    let left = seq![(" "@, Tone::Plain), (" TINCAN "@, Tone::ChipOn), (" "@, Tone::Plain)]
        + (if app.room_name@.len() > 0 { seq![(app.room_name@, Tone::Strong), (" "@, Tone::Plain)] } else { Seq::empty() })
        + (if app.channels@.len() > 0 { seq![("#"@ + channel_name_spec(app, app.viewing), Tone::Accent)] } else { Seq::empty() });
    let right = (if recently_dropped { seq![("audio dropping "@, Tone::Alarm)] } else { Seq::empty() })
        + seq![(" "@ + label_spec(app.voice_available, strand) + " "@, Tone::ChipLink(strand))]
        + (match app.link.worst_rtt {
            Some(ms) => seq![(" "@ + decimal(ms as nat) + "ms"@, Tone::Dim)],
            None => Seq::empty(),
        })
        + seq![(" "@, Tone::Plain)];
    spread_spec(width as nat, left, right)
}

pub fn header_row(width: u16, app: &App, recently_dropped: bool) -> (r: Vec<Segment>)
    ensures
        r.deep_view() == header_spec(width, *app, recently_dropped),
{
    proof {
        reveal_strlit(" ");
        reveal_strlit(" TINCAN ");
        reveal_strlit("#");
        reveal_strlit("audio dropping ");
        reveal_strlit("ms");
    }
    let strand = strand_of(app.voice_available, &app.link, recently_dropped);
    let mut left = vec![raw(" "), segment(String::from_str(" TINCAN "), Tone::ChipOn), raw(" ")];
    let ghost l0 = left.deep_view();
    if chars_of(app.room_name.as_str()).len() > 0 {
        push_all(&mut left, vec![segment(app.room_name.clone(), Tone::Strong), raw(" ")]);
    } else {
        assert(l0 =~= l0 + Seq::<(Seq<char>, Tone)>::empty());
    }
    let ghost l1 = left.deep_view();
    if app.channels.len() > 0 {
        let mut name = String::from_str("#");
        name.append(app.channel_name(app.viewing));
        push_all(&mut left, vec![segment(name, Tone::Accent)]);
    } else {
        assert(l1 =~= l1 + Seq::<(Seq<char>, Tone)>::empty());
    }
    let mut right: Vec<Segment> = Vec::new();
    if recently_dropped {
        right.push(segment(String::from_str("audio dropping "), Tone::Alarm));
    }
    let ghost r0 = right.deep_view();
    let mut chip = String::from_str(" ");
    chip.append(label(app.voice_available, strand));
    chip.append(" ");
    push_all(&mut right, vec![segment(chip, Tone::ChipLink(strand))]);
    let ghost r1 = right.deep_view();
    match app.link.worst_rtt {
        Some(ms) => {
            let mut t = String::from_str(" ");
            t.append(crate::text::decimal_wide(ms).as_str());
            t.append("ms");
            push_all(&mut right, vec![segment(t, Tone::Dim)]);
        },
        None => {
            assert(r1 =~= r1 + Seq::<(Seq<char>, Tone)>::empty());
        },
    }
    push_all(&mut right, vec![raw(" ")]);
    let ghost right_v = (if recently_dropped { seq![("audio dropping "@, Tone::Alarm)] } else { Seq::empty() })
        + seq![(" "@ + label_spec(app.voice_available, strand) + " "@, Tone::ChipLink(strand))]
        + (match app.link.worst_rtt {
            Some(ms) => seq![(" "@ + decimal(ms as nat) + "ms"@, Tone::Dim)],
            None => Seq::empty(),
        })
        + seq![(" "@, Tone::Plain)];
    assert(right.deep_view() =~= right_v);
    let ghost left_v = seq![(" "@, Tone::Plain), (" TINCAN "@, Tone::ChipOn), (" "@, Tone::Plain)]
        + (if app.room_name@.len() > 0 { seq![(app.room_name@, Tone::Strong), (" "@, Tone::Plain)] } else { Seq::empty() })
        + (if app.channels@.len() > 0 { seq![("#"@ + channel_name_spec(*app, app.viewing), Tone::Accent)] } else { Seq::empty() });
    assert(left.deep_view() =~= left_v);
    spread(width, left, right)
}

/// The shortcuts, shortened a step at a time rather than cut mid-word: those of the
/// settings screen, those for the person picked out of the roster, or the everyday
/// ones. What still does not fit is clipped.
pub open spec fn shortcut_ladder(mode: ViewMode, picking: bool) -> Seq<Seq<char>> {
    if mode == ViewMode::Settings {
        seq![
            "tab section · ↑↓ move · ←→ adjust · a measure · space toggle · m live · esc back"@,
            "tab section · ↑↓ move · ←→ adjust · enter apply · esc back"@,
            "tab section · ↑↓ move · ←→ adjust · esc back"@,
            "↑↓ move · ←→ adjust · esc back"@,
            "esc back"@,
        ]
    } else if picking {
        seq![
            "↑↓ person · ←→ volume · ctrl+k silence · esc done · f2 talk · f6 audio · ctrl+c"@,
            "↑↓ person · ←→ volume · ctrl+k silence · esc done · f2 talk · ctrl+c"@,
            "↑↓ person · ←→ volume · ctrl+k silence · esc done · f2 talk"@,
            "←→ volume · ctrl+k silence · esc done · f2 talk"@,
            "esc done · f2 talk"@,
        ]
    } else {
        seq![
            "tab channel · f2 talk · f3 mute · f5 deafen · f6 audio · ctrl+c quit"@,
            "tab channel · f2 talk · f3 mute · f6 audio · ctrl+c quit"@,
            "tab channel · f2 talk · f3 mute · f6 audio · ctrl+c"@,
            "tab · f2 talk · f6 audio · ctrl+c"@,
            "ctrl+c quit"@,
        ]
    }
}

/// The first rung of the ladder, from `k` on, that fits; the last one clipped when none
/// does.
pub open spec fn first_fitting(steps: Seq<Seq<char>>, k: nat, width: nat, ascii: bool, cut: char) -> Seq<char>
    decreases 5 - k,
{
    if k >= 5 {
        clip_spec(plainly_spec(steps[4], ascii), width, cut)
    } else if plainly_spec(steps[k as int], ascii).len() <= width {
        plainly_spec(steps[k as int], ascii)
    } else {
        first_fitting(steps, k + 1, width, ascii, cut)
    }
}

pub open spec fn shortcut_spec(mode: ViewMode, picking: bool, width: nat, ascii: bool, cut: char) -> Seq<char> {
    first_fitting(shortcut_ladder(mode, picking), 0, width, ascii, cut)
}

fn ladder(mode: ViewMode, picking: bool) -> (r: [&'static str; 5])
    ensures
        forall|i: int| 0 <= i < 5 ==> (#[trigger] r@[i])@ == shortcut_ladder(mode, picking)[i],
{
    if mode == ViewMode::Settings {
        [
            "tab section · ↑↓ move · ←→ adjust · a measure · space toggle · m live · esc back",
            "tab section · ↑↓ move · ←→ adjust · enter apply · esc back",
            "tab section · ↑↓ move · ←→ adjust · esc back",
            "↑↓ move · ←→ adjust · esc back",
            "esc back",
        ]
    } else if picking {
        [
            "↑↓ person · ←→ volume · ctrl+k silence · esc done · f2 talk · f6 audio · ctrl+c",
            "↑↓ person · ←→ volume · ctrl+k silence · esc done · f2 talk · ctrl+c",
            "↑↓ person · ←→ volume · ctrl+k silence · esc done · f2 talk",
            "←→ volume · ctrl+k silence · esc done · f2 talk",
            "esc done · f2 talk",
        ]
    } else {
        [
            "tab channel · f2 talk · f3 mute · f5 deafen · f6 audio · ctrl+c quit",
            "tab channel · f2 talk · f3 mute · f6 audio · ctrl+c quit",
            "tab channel · f2 talk · f3 mute · f6 audio · ctrl+c",
            "tab · f2 talk · f6 audio · ctrl+c",
            "ctrl+c quit",
        ]
    }
}

/// The shortcut line that fits in `width` columns.
pub fn shortcut_line(mode: ViewMode, picking: bool, width: usize, ascii: bool, cut: char) -> (r: String)
    ensures
        r@ == shortcut_spec(mode, picking, width as nat, ascii, cut),
        r@.len() <= width,
{
    let steps = ladder(mode, picking);
    let ghost all = shortcut_ladder(mode, picking);
    let mut k: usize = 0;
    while k < 5
        invariant
            k <= 5,
            all == shortcut_ladder(mode, picking),
            all.len() == 5,
            forall|i: int| 0 <= i < 5 ==> (#[trigger] steps@[i])@ == all[i],
            first_fitting(all, 0, width as nat, ascii, cut) == first_fitting(all, k as nat, width as nat, ascii, cut),
        decreases 5 - k,
    {
        let rung = steps[k];
        assert(rung@ == all[k as int]);
        let step = plainly(rung, ascii);
        if chars_of(step.as_str()).len() <= width {
            return step;
        }
        k = k + 1;
    }
    let rung = steps[4];
    assert(rung@ == all[4]);
    let last = plainly(rung, ascii);
    proof {
        crate::ui::layout::lemma_clip_fits(last@, width as nat, cut);
    }
    clip(last.as_str(), width, cut)
}

/// The first nine characters of the invite code, and the mark that says it was cut.
pub open spec fn code_head_spec(code: Seq<char>, cut: char) -> Seq<char> {
    code.take(if code.len() < 9 { code.len() as int } else { 9 }).push(cut)
}

fn code_head(code: &str, cut: char) -> (r: String)
    ensures
        r@ == code_head_spec(code@, cut),
{
    let chars = chars_of(code);
    let keep = if chars.len() < 9 { chars.len() } else { 9 };
    let mut out = String::new();
    let mut i: usize = 0;
    while i < keep
        invariant
            keep <= chars@.len(),
            chars@ == code@,
            i <= keep,
            out@ == chars@.take(i as int),
        decreases keep - i,
    {
        crate::text::push_char(&mut out, chars[i]);
        i = i + 1;
        assert(out@ =~= chars@.take(i as int));
    }
    crate::text::push_char(&mut out, cut);
    out
}

/// The footer: the shortcuts (or the status, when there is one) at the left, and the
/// invite code at the right, which keeps its corner while the shortcuts shorten.
pub open spec fn footer_spec(width: u16, app: App, ascii: bool, cut: char) -> Seq<(Seq<char>, Tone)> {
    let right = seq![("f1 code "@, Tone::Dim), (code_head_spec(app.invite_code@, cut), Tone::Brass), (" "@, Tone::Plain)];
    let used = row_width(right);
    let room = if width >= used + 2 { (width - (used + 2)) as nat } else { 0 };
    let hints = match app.status {
        Some(status) => clip_spec(status@, room, cut),
        None => shortcut_spec(app.view_mode, app.selected_peer is Some, room, ascii, cut),
    };
    spread_spec(width as nat, seq![(" "@, Tone::Plain), (hints, Tone::Dim)], right)
}

pub fn footer_row(width: u16, app: &App, ascii: bool, cut: char) -> (r: Vec<Segment>)
    ensures
        r.deep_view() == footer_spec(width, *app, ascii, cut),
{
    proof {
        reveal_strlit("f1 code ");
        reveal_strlit(" ");
    }
    let right = vec![segment(String::from_str("f1 code "), Tone::Dim), segment(code_head(app.invite_code.as_str(), cut), Tone::Brass), raw(" ")];
    let w = width as usize;
    let used = capped_width(&right, w);
    let room = if w >= used + 2 { w - (used + 2) } else { 0 };
    let hints = match &app.status {
        Some(status) => clip(status.as_str(), room, cut),
        None => shortcut_line(app.view_mode, app.selected_peer.is_some(), room, ascii, cut),
    };
    let ghost right_v = seq![("f1 code "@, Tone::Dim), (code_head_spec(app.invite_code@, cut), Tone::Brass), (" "@, Tone::Plain)];
    assert(right.deep_view() =~= right_v);
    let ghost hints_v = hints@;
    let left = vec![raw(" "), segment(hints, Tone::Dim)];
    assert(left.deep_view() =~= seq![(" "@, Tone::Plain), (hints_v, Tone::Dim)]);
    spread(width, left, right)
}

/// The column of the string: a blank, then the glyph of the string's state (its gaps
/// left blank), with the pulse on `pulse`'s row.
pub open spec fn string_row(row: u16, strand: Strand, pulse: Option<u16>, g: Glyphs) -> Seq<(Seq<char>, Tone)> {
    let glyph = g.strand@[crate::ui::theme::strand_index(strand)];
    let (symbol, tone) = if pulse == Some(row) {
        (g.pulse, Tone::Accent)
    } else if unbroken_spec(strand, row) {
        (glyph, strand_tone(strand))
    } else {
        (' ', strand_tone(strand))
    };
    seq![(" "@, Tone::Plain), (seq![symbol], tone)]
}

pub fn string_column(height: u16, strand: Strand, pulse: Option<u16>, glyphs: &Glyphs) -> (r: Vec<Vec<Segment>>)
    ensures
        r.deep_view() == Seq::new(height as nat, |i: int| string_row(i as u16, strand, pulse, *glyphs)),
{
    let glyph = glyphs.strand_glyph(strand);
    let tone = strand_tone_of(strand);
    let mut out: Vec<Vec<Segment>> = Vec::new();
    let mut row: u16 = 0;
    while row < height
        invariant
            row <= height,
            glyph == glyphs.strand@[crate::ui::theme::strand_index(strand)],
            tone == strand_tone(strand),
            out.deep_view() == Seq::new(row as nat, |i: int| string_row(i as u16, strand, pulse, *glyphs)),
        decreases height - row,
    {
        let (symbol, t) = if pulse == Some(row) {
            (glyphs.pulse, Tone::Accent)
        } else if unbroken(strand, row) {
            (glyph, tone)
        } else {
            (' ', tone)
        };
        let mut text = String::new();
        crate::text::push_char(&mut text, symbol);
        proof {
            reveal_strlit(" ");
        }
        let r = vec![raw(" "), segment(text, t)];
        assert(r.deep_view() =~= string_row(row, strand, pulse, *glyphs));
        let ghost before = out.deep_view();
        let ghost r_v = r.deep_view();
        out.push(r);
        assert(out.deep_view() =~= before.push(r_v));
        row = row + 1;
        assert(out.deep_view() =~= Seq::new(row as nat, |i: int| string_row(i as u16, strand, pulse, *glyphs)));
    }
    out
}

// ── The settings screen ─────────────────────────────────────────────────────────

/// The key and label in front of a control; what is left of the row holds its state.
pub const HEAD_ROOM: usize = 30;
/// How much of a device's name its row holds.
pub const DEVICE_ROOM: usize = 34;
/// Cells in the microphone's level meter at full width.
pub const METER_CELLS: usize = 28;
/// From this cell of `METER_CELLS` on, the input is close to clipping.
pub const HOT: usize = 23;
/// From this cell of `METER_CELLS` on, the input is getting loud.
pub const WARM: usize = 16;

/// The settings screen's problem, when there is one, over a blank row.
pub open spec fn problem_spec(width: u16, message: Seq<char>, cut: char) -> Seq<Seq<(Seq<char>, Tone)>> {
    seq![
        seq![
            (" "@, Tone::Plain),
            (" PROBLEM "@, Tone::ChipLink(Strand::Frayed)),
            (" "@, Tone::Plain),
            (clip_spec(message, width as nat, cut), Tone::Alarm),
        ],
        Seq::empty(),
    ]
}

pub fn problem_rows(width: u16, message: &str, cut: char) -> (r: Vec<Vec<Segment>>)
    ensures
        r.deep_view() == problem_spec(width, message@, cut),
{
    proof {
        reveal_strlit(" ");
    }
    let head = vec![
        raw(" "),
        segment(String::from_str(" PROBLEM "), Tone::ChipLink(Strand::Frayed)),
        raw(" "),
        segment(clip(message, width as usize, cut), Tone::Alarm),
    ];
    let blank: Vec<Segment> = Vec::new();
    let out = vec![head, blank];
    assert(out.deep_view() =~~= problem_spec(width, message@, cut));
    out
}

/// The tag at the right of a device's row: unavailable, or its rate in kHz, said to be
/// in use or the default when it is.
pub open spec fn device_tag(device: AudioDeviceInfo, in_use: bool, dot: Seq<char>) -> (Seq<char>, Tone) {
    let khz = decimal((device.sample_rate / 1000) as nat) + " kHz"@;
    if !device.is_supported {
        ("unavailable"@, Tone::Alarm)
    } else if in_use {
        ("in use"@ + dot + khz, Tone::Dim)
    } else if device.is_default {
        ("default"@ + dot + khz, Tone::Dim)
    } else {
        (khz, Tone::Dim)
    }
}

/// Whether a device is the one in use: the one named as active, or the default when
/// none is named.
pub open spec fn in_use_spec(device: AudioDeviceInfo, active: Option<String>) -> bool {
    match active {
        Some(name) => name@ == device.name@,
        None => device.is_default,
    }
}

/// A device's row: the cursor on the highlighted one, the dot on the one in use, its
/// name (accent when highlighted, green in use, grey when unusable) and its tag.
pub open spec fn device_row(width: u16, device: AudioDeviceInfo, highlighted: bool, in_use: bool, g: Glyphs) -> Seq<(Seq<char>, Tone)> {
    let tone = if highlighted {
        Tone::Accent
    } else if in_use {
        Tone::Holding
    } else if !device.is_supported {
        Tone::Dim
    } else {
        Tone::Text
    };
    let left = seq![
        ("  "@, Tone::Plain),
        (mark_spec(highlighted, g.cursor), Tone::Accent),
        (" "@, Tone::Plain),
        (mark_spec(in_use, g.on_air), Tone::Holding),
        (" "@, Tone::Plain),
        (clip_spec(device.name@, DEVICE_ROOM as nat, g.cut), tone),
    ];
    spread_spec(width as nat, left, seq![device_tag(device, in_use, g.dot@), (" "@, Tone::Plain)])
}

/// A device list: one row a device, or a line saying what to do when there are none.
pub open spec fn devices_spec(
    width: u16,
    g: Glyphs,
    list: Seq<AudioDeviceInfo>,
    selected: usize,
    active: Option<String>,
    focused: bool,
    empty: Seq<char>,
) -> Seq<Seq<(Seq<char>, Tone)>> {
    if list.len() == 0 {
        seq![seq![("  "@, Tone::Plain), (empty, Tone::Dim)]]
    } else {
        Seq::new(list.len(), |i: int| device_row(width, list[i], focused && i == selected, in_use_spec(list[i], active), g))
    }
}

fn device_row_of(width: u16, device: &AudioDeviceInfo, highlighted: bool, in_use: bool, glyphs: &Glyphs) -> (r: Vec<Segment>)
    ensures
        r.deep_view() == device_row(width, *device, highlighted, in_use, *glyphs),
{
    proof {
        reveal_strlit("  ");
        reveal_strlit(" ");
        reveal_strlit(" kHz");
        reveal_strlit("unavailable");
        reveal_strlit("in use");
        reveal_strlit("default");
    }
    let tone = if highlighted {
        Tone::Accent
    } else if in_use {
        Tone::Holding
    } else if !device.is_supported {
        Tone::Dim
    } else {
        Tone::Text
    };
    let left = vec![
        raw("  "),
        segment(mark(highlighted, glyphs.cursor), Tone::Accent),
        raw(" "),
        segment(mark(in_use, glyphs.on_air), Tone::Holding),
        raw(" "),
        segment(clip(device.name.as_str(), DEVICE_ROOM, glyphs.cut), tone),
    ];
    let mut khz = crate::text::decimal_string((device.sample_rate / 1000) as u64);
    khz.append(" kHz");
    let (tag, tag_tone) = if !device.is_supported {
        (String::from_str("unavailable"), Tone::Alarm)
    } else if in_use {
        let mut t = String::from_str("in use");
        t.append(glyphs.dot);
        t.append(khz.as_str());
        (t, Tone::Dim)
    } else if device.is_default {
        let mut t = String::from_str("default");
        t.append(glyphs.dot);
        t.append(khz.as_str());
        (t, Tone::Dim)
    } else {
        (khz, Tone::Dim)
    };
    let right = vec![segment(tag, tag_tone), raw(" ")];
    assert(right.deep_view() =~= seq![device_tag(*device, in_use, glyphs.dot@), (" "@, Tone::Plain)]);
    assert(left.deep_view() =~= seq![
        ("  "@, Tone::Plain),
        (mark_spec(highlighted, glyphs.cursor), Tone::Accent),
        (" "@, Tone::Plain),
        (mark_spec(in_use, glyphs.on_air), Tone::Holding),
        (" "@, Tone::Plain),
        (clip_spec(device.name@, DEVICE_ROOM as nat, glyphs.cut), tone),
    ]);
    let row = spread(width, left, right);
    assert(row.deep_view() =~= device_row(width, *device, highlighted, in_use, *glyphs));
    row
}

pub fn device_rows(
    width: u16,
    glyphs: &Glyphs,
    list: &Vec<AudioDeviceInfo>,
    selected: usize,
    active: &Option<String>,
    focused: bool,
    empty: &str,
) -> (r: Vec<Vec<Segment>>)
    ensures
        r.deep_view() == devices_spec(width, *glyphs, list@, selected, *active, focused, empty@),
{
    if list.len() == 0 {
        proof {
            reveal_strlit("  ");
        }
        let out = vec![vec![raw("  "), segment(empty.to_owned(), Tone::Dim)]];
        assert(out.deep_view() =~~= devices_spec(width, *glyphs, list@, selected, *active, focused, empty@));
        return out;
    }
    let mut out: Vec<Vec<Segment>> = Vec::new();
    let mut i: usize = 0;
    while i < list.len()
        invariant
            i <= list@.len(),
            list@.len() > 0,
            out.deep_view() == Seq::new(
                i as nat,
                |k: int| device_row(width, list@[k], focused && k == selected, in_use_spec(list@[k], *active), *glyphs),
            ),
        decreases list@.len() - i,
    {
        let device = &list[i];
        let in_use = match active {
            Some(name) => *name == device.name,
            None => device.is_default,
        };
        let row = device_row_of(width, device, focused && i == selected, in_use, glyphs);
        let ghost before = out.deep_view();
        let ghost row_v = row.deep_view();
        out.push(row);
        assert(out.deep_view() =~= before.push(row_v));
        i = i + 1;
        assert(out.deep_view() =~= Seq::new(
            i as nat,
            |k: int| device_row(width, list@[k], focused && k == selected, in_use_spec(list@[k], *active), *glyphs),
        ));
    }
    out
}

/// The keyboard's own sound: whether it clicks, and how loud (`loudness` in percent,
/// `None` when the dial is at the bottom).
pub open spec fn typing_spec(width: u16, clicks: bool, loudness: Option<u32>, cut: char) -> Seq<Seq<(Seq<char>, Tone)>> {
    let (state, state_tone) = if clicks { ("on"@, Tone::Holding) } else { ("off"@, Tone::Dim) };
    let loud = if clicks && loudness is Some {
        decimal(loudness->0 as nat) + "%"@
    } else if clicks {
        "silent"@
    } else {
        "—"@
    };
    let room = if width >= HEAD_ROOM { (width - HEAD_ROOM) as nat } else { 0 };
    seq![
        seq![
            ("  "@, Tone::Plain),
            (pad_spec("space"@, 5), Tone::Accent),
            ("  "@, Tone::Plain),
            (pad_spec("key clicks"@, 21), Tone::Text),
            (clip_spec(state, room, cut), state_tone),
        ],
        seq![
            ("  "@, Tone::Plain),
            (pad_spec("←→"@, 5), Tone::Accent),
            ("  "@, Tone::Plain),
            (pad_spec("how loud"@, 21), Tone::Text),
            (clip_spec(loud, room, cut), if clicks { Tone::Text } else { Tone::Dim }),
        ],
    ]
}

pub fn typing_rows(width: u16, clicks: bool, loudness: Option<u32>, cut: char) -> (r: Vec<Vec<Segment>>)
    ensures
        r.deep_view() == typing_spec(width, clicks, loudness, cut),
{
    proof {
        reveal_strlit("on");
        reveal_strlit("off");
        reveal_strlit("%");
        reveal_strlit("silent");
        reveal_strlit("—");
        reveal_strlit("  ");
        reveal_strlit("space");
        reveal_strlit("key clicks");
        reveal_strlit("←→");
        reveal_strlit("how loud");
    }
    let (state, state_tone) = if clicks { ("on", Tone::Holding) } else { ("off", Tone::Dim) };
    let loud = match loudness {
        Some(p) if clicks => {
            let mut t = crate::text::decimal_string(p as u64);
            t.append("%");
            t
        },
        _ => if clicks {
            String::from_str("silent")
        } else {
            String::from_str("—")
        },
    };
    let room = if width as usize >= HEAD_ROOM { width as usize - HEAD_ROOM } else { 0 };
    let first = vec![
        raw("  "),
        segment(pad("space", 5), Tone::Accent),
        raw("  "),
        segment(pad("key clicks", 21), Tone::Text),
        segment(clip(state, room, cut), state_tone),
    ];
    let second = vec![
        raw("  "),
        segment(pad("←→", 5), Tone::Accent),
        raw("  "),
        segment(pad("how loud", 21), Tone::Text),
        segment(clip(loud.as_str(), room, cut), if clicks { Tone::Text } else { Tone::Dim }),
    ];
    let ghost spec = typing_spec(width, clicks, loudness, cut);
    assert(first.deep_view() =~= spec[0]);
    assert(second.deep_view() =~= spec[1]);
    let out = vec![first, second];
    assert(out.deep_view() =~= spec);
    out
}

/// What the microphone test shows beside the meter: seconds left of a recording, a
/// measurement of the room under way, and where the noise floor sits (in percent of
/// the meter, `None` when nothing is ignored).
#[derive(Debug, Clone, Copy, PartialEq, Eq, Structural)]
pub struct MicReading {
    pub left_secs: Option<u64>,
    pub calibrating: bool,
    pub gate_percent: Option<u32>,
}

/// The control the test row belongs to, its label, what it is doing and how that
/// reads: each stage names itself.
pub open spec fn test_state(mic_test: MicTest, fed_back: bool, left_secs: Option<u64>) -> (Seq<char>, Seq<char>, Seq<char>, Tone) {
    match mic_test {
        MicTest::Recording => (
            "space"@,
            "play yourself back"@,
            match left_secs {
                Some(left) => "recording… "@ + decimal((left + 1) as nat),
                None => "recording…"@,
            },
            Tone::Brass,
        ),
        MicTest::Playing => ("space"@, "play yourself back"@, "playing it back"@, Tone::Holding),
        MicTest::Monitoring => ("m"@, "listen live"@, "on"@, Tone::Holding),
        MicTest::Off => if fed_back {
            ("space"@, "play yourself back"@, "fed back — use headphones"@, Tone::Alarm)
        } else {
            ("space"@, "play yourself back"@, "ready"@, Tone::Dim)
        },
    }
}

/// The rows of the microphone test: where the floor is set (with the measurement
/// offered beside it while none runs), the test's own row (live monitoring offered
/// while nothing runs), a blank, and the meter.
pub open spec fn test_spec(width: u16, mic_test: MicTest, fed_back: bool, reading: MicReading, meter: Seq<(Seq<char>, Tone)>, cut: char) -> Seq<Seq<(Seq<char>, Tone)>> {
    let (key, label, state, state_tone) = test_state(mic_test, fed_back, reading.left_secs);
    let room = if width >= HEAD_ROOM { (width - HEAD_ROOM) as nat } else { 0 };
    let (gate, gate_tone) = if reading.calibrating {
        ("listening to the room…"@, Tone::Brass)
    } else if reading.gate_percent is None {
        ("nothing is ignored"@, Tone::Dim)
    } else {
        (decimal(reading.gate_percent->0 as nat) + "%"@, Tone::Text)
    };
    let floor = seq![
        ("  "@, Tone::Plain),
        ("←→"@, Tone::Accent),
        ("     "@, Tone::Plain),
        ("ignore quieter than  "@, Tone::Text),
        (clip_spec(gate, room, cut), gate_tone),
    ];
    let offer = if reading.calibrating { Seq::empty() } else { seq![("a"@, Tone::Accent), ("  measure the room "@, Tone::Dim)] };
    let control = seq![
        ("  "@, Tone::Plain),
        (pad_spec(key, 5), Tone::Accent),
        ("  "@, Tone::Plain),
        (pad_spec(label, 21), Tone::Text),
        (clip_spec(state, room, cut), state_tone),
    ];
    let live = if mic_test == MicTest::Off { seq![("m"@, Tone::Accent), ("  listen live "@, Tone::Dim)] } else { Seq::empty() };
    seq![spread_spec(width as nat, floor, offer), spread_spec(width as nat, control, live), Seq::empty(), meter]
}

fn test_state_of(mic_test: MicTest, fed_back: bool, left_secs: Option<u64>) -> (r: (&'static str, &'static str, String, Tone))
    requires
        left_secs matches Some(left) ==> left < u64::MAX,
    ensures
        (r.0@, r.1@, r.2@, r.3) == test_state(mic_test, fed_back, left_secs),
{
    proof {
        reveal_strlit("recording… ");
        reveal_strlit("recording…");
    }
    match mic_test {
        MicTest::Recording => {
            let state = match left_secs {
                Some(left) => {
                    let mut t = String::from_str("recording… ");
                    t.append(crate::text::decimal_string(left + 1).as_str());
                    t
                },
                None => String::from_str("recording…"),
            };
            ("space", "play yourself back", state, Tone::Brass)
        },
        MicTest::Playing => ("space", "play yourself back", String::from_str("playing it back"), Tone::Holding),
        MicTest::Monitoring => ("m", "listen live", String::from_str("on"), Tone::Holding),
        MicTest::Off => if fed_back {
            ("space", "play yourself back", String::from_str("fed back — use headphones"), Tone::Alarm)
        } else {
            ("space", "play yourself back", String::from_str("ready"), Tone::Dim)
        },
    }
}

pub fn test_rows(width: u16, app: &App, reading: MicReading, meter: Vec<Segment>, cut: char) -> (r: Vec<Vec<Segment>>)
    requires
        reading.left_secs matches Some(left) ==> left < u64::MAX,
    ensures
        r.deep_view() == test_spec(width, app.mic_test, app.fed_back, reading, meter.deep_view(), cut),
{
    proof {
        reveal_strlit("  ");
        reveal_strlit("     ");
        reveal_strlit("%");
        reveal_strlit("listening to the room…");
        reveal_strlit("nothing is ignored");
    }
    let (key, label, state, state_tone) = test_state_of(app.mic_test, app.fed_back, reading.left_secs);
    let room = if width as usize >= HEAD_ROOM { width as usize - HEAD_ROOM } else { 0 };
    let (gate, gate_tone) = if reading.calibrating {
        (String::from_str("listening to the room…"), Tone::Brass)
    } else {
        match reading.gate_percent {
            None => (String::from_str("nothing is ignored"), Tone::Dim),
            Some(p) => {
                let mut t = crate::text::decimal_string(p as u64);
                t.append("%");
                (t, Tone::Text)
            },
        }
    };
    let floor = vec![
        raw("  "),
        segment(String::from_str("←→"), Tone::Accent),
        raw("     "),
        segment(String::from_str("ignore quieter than  "), Tone::Text),
        segment(clip(gate.as_str(), room, cut), gate_tone),
    ];
    let offer = if reading.calibrating {
        Vec::new()
    } else {
        vec![segment(String::from_str("a"), Tone::Accent), segment(String::from_str("  measure the room "), Tone::Dim)]
    };
    let control = vec![
        raw("  "),
        segment(pad(key, 5), Tone::Accent),
        raw("  "),
        segment(pad(label, 21), Tone::Text),
        segment(clip(state.as_str(), room, cut), state_tone),
    ];
    let live = if app.mic_test == MicTest::Off {
        vec![segment(String::from_str("m"), Tone::Accent), segment(String::from_str("  listen live "), Tone::Dim)]
    } else {
        Vec::new()
    };
    let ghost offer_v = offer.deep_view();
    let ghost live_v = live.deep_view();
    assert(offer_v =~= (if reading.calibrating { Seq::empty() } else { seq![("a"@, Tone::Accent), ("  measure the room "@, Tone::Dim)] }));
    assert(live_v =~= (if app.mic_test == MicTest::Off { seq![("m"@, Tone::Accent), ("  listen live "@, Tone::Dim)] } else { Seq::empty() }));
    let ghost (gate_v, gate_tone_v) = if reading.calibrating {
        ("listening to the room…"@, Tone::Brass)
    } else if reading.gate_percent is None {
        ("nothing is ignored"@, Tone::Dim)
    } else {
        (decimal(reading.gate_percent->0 as nat) + "%"@, Tone::Text)
    };
    assert(gate@ == gate_v && gate_tone == gate_tone_v);
    let ghost room_v = if width >= HEAD_ROOM { (width - HEAD_ROOM) as nat } else { 0 };
    assert(floor.deep_view() =~= seq![
        ("  "@, Tone::Plain),
        ("←→"@, Tone::Accent),
        ("     "@, Tone::Plain),
        ("ignore quieter than  "@, Tone::Text),
        (clip_spec(gate_v, room_v, cut), gate_tone_v),
    ]);
    let ghost (key_v, label_v, state_v, state_tone_v) = test_state(app.mic_test, app.fed_back, reading.left_secs);
    assert(control.deep_view() =~= seq![
        ("  "@, Tone::Plain),
        (pad_spec(key_v, 5), Tone::Accent),
        ("  "@, Tone::Plain),
        (pad_spec(label_v, 21), Tone::Text),
        (clip_spec(state_v, room_v, cut), state_tone_v),
    ]);
    let first = spread(width, floor, offer);
    let second = spread(width, control, live);
    let blank: Vec<Segment> = Vec::new();
    let out = vec![first, second, blank, meter];
    assert(out.deep_view() =~~= test_spec(width, app.mic_test, app.fed_back, reading, meter.deep_view(), cut));
    out
}

/// What the meter says about the voice: holding still while the room is measured,
/// sending when it clears the floor, too quiet otherwise.
pub open spec fn verdict_spec(calibrating: bool, sending: bool) -> (Seq<char>, Tone) {
    if calibrating {
        ("hold still"@, Tone::Brass)
    } else if sending {
        ("sending"@, Tone::Holding)
    } else {
        ("too quiet to send"@, Tone::Dim)
    }
}

fn verdict(calibrating: bool, sending: bool) -> (r: (&'static str, Tone))
    ensures
        (r.0@, r.1) == verdict_spec(calibrating, sending),
{
    if calibrating {
        ("hold still", Tone::Brass)
    } else if sending {
        ("sending", Tone::Holding)
    } else {
        ("too quiet to send", Tone::Dim)
    }
}

/// How many cells the meter gets in a pane this wide: all of them when they fit
/// beside the verdict, fewer on a narrow pane, none on a very narrow one.
pub open spec fn meter_cells_spec(width: u16, calibrating: bool, sending: bool) -> nat {
    let need = verdict_spec(calibrating, sending).0.len() + 4;
    let room = if width >= need { (width - need) as nat } else { 0 };
    if room < METER_CELLS { room } else { METER_CELLS as nat }
}

pub fn meter_cells(width: u16, calibrating: bool, sending: bool) -> (r: usize)
    ensures
        r == meter_cells_spec(width, calibrating, sending),
        r <= METER_CELLS,
{
    proof {
        reveal_strlit("hold still");
        reveal_strlit("sending");
        reveal_strlit("too quiet to send");
    }
    let (text, _) = verdict(calibrating, sending);
    let need = chars_of(text).len() + 4;
    let w = width as usize;
    let room = if w >= need { w - need } else { 0 };
    if room < METER_CELLS {
        room
    } else {
        METER_CELLS
    }
}

/// One cell of the meter: the floor's mark wherever it sits, a lit cell up to the
/// level (green, then brass, then the alarm near the top), an unlit one above it.
pub open spec fn meter_cell(cell: nat, cells: nat, filled: nat, mark: Option<usize>, lit: char, unlit: char) -> (Seq<char>, Tone) {
    if mark == Some(cell as usize) {
        ("|"@, Tone::Accent)
    } else if cell < filled {
        (seq![lit], if cell * METER_CELLS >= HOT * cells {
            Tone::Alarm
        } else if cell * METER_CELLS >= WARM * cells {
            Tone::Brass
        } else {
            Tone::Holding
        })
    } else {
        (seq![unlit], Tone::Dim)
    }
}

/// The live level with the noise floor marked on it, `cells` wide, `filled` of them
/// lit, the floor's mark on cell `mark`, and the verdict after it.
pub open spec fn meter_spec(cells: nat, filled: nat, mark: Option<usize>, calibrating: bool, sending: bool, g: Glyphs) -> Seq<(Seq<char>, Tone)> {
    let (text, tone) = verdict_spec(calibrating, sending);
    if cells == 0 {
        seq![("  "@ + text, tone)]
    } else {
        seq![("  "@, Tone::Plain)] + Seq::new(cells, |c: int| meter_cell(c as nat, cells, filled, mark, g.bar@[0], g.bar@[1]))
            + seq![("  "@, Tone::Plain), (text, tone)]
    }
}

pub fn meter_row(cells: usize, filled: usize, mark: Option<usize>, calibrating: bool, sending: bool, glyphs: &Glyphs) -> (r: Vec<Segment>)
    requires
        cells <= METER_CELLS,
    ensures
        r.deep_view() == meter_spec(cells as nat, filled as nat, mark, calibrating, sending, *glyphs),
{
    proof {
        reveal_strlit("  ");
        reveal_strlit("|");
    }
    let (text, tone) = verdict(calibrating, sending);
    if cells == 0 {
        let mut t = String::from_str("  ");
        t.append(text);
        let v = vec![segment(t, tone)];
        assert(v.deep_view() =~= meter_spec(cells as nat, filled as nat, mark, calibrating, sending, *glyphs));
        return v;
    }
    let lit = glyphs.bar[0];
    let unlit = glyphs.bar[1];
    let mut out = vec![raw("  ")];
    let ghost head = out.deep_view();
    let mut cell: usize = 0;
    while cell < cells
        invariant
            cell <= cells <= METER_CELLS,
            lit == glyphs.bar@[0],
            unlit == glyphs.bar@[1],
            head == seq![("  "@, Tone::Plain)],
            out.deep_view() == head + Seq::new(cell as nat, |c: int| meter_cell(c as nat, cells as nat, filled as nat, mark, lit, unlit)),
        decreases cells - cell,
    {
        let piece = if mark == Some(cell) {
            segment(String::from_str("|"), Tone::Accent)
        } else if cell < filled {
            let mut t = String::new();
            crate::text::push_char(&mut t, lit);
            assert(t@ =~= seq![lit]);
            let tone = if cell * METER_CELLS >= HOT * cells {
                Tone::Alarm
            } else if cell * METER_CELLS >= WARM * cells {
                Tone::Brass
            } else {
                Tone::Holding
            };
            segment(t, tone)
        } else {
            let mut t = String::new();
            crate::text::push_char(&mut t, unlit);
            assert(t@ =~= seq![unlit]);
            segment(t, Tone::Dim)
        };
        assert(piece.deep_view() == meter_cell(cell as nat, cells as nat, filled as nat, mark, lit, unlit));
        let ghost before = out.deep_view();
        let ghost piece_v = piece.deep_view();
        out.push(piece);
        assert(out.deep_view() =~= before.push(piece_v));
        cell = cell + 1;
        assert(out.deep_view() =~= head + Seq::new(cell as nat, |c: int| meter_cell(c as nat, cells as nat, filled as nat, mark, lit, unlit)));
    }
    push_all(&mut out, vec![raw("  "), segment(text.to_owned(), tone)]);
    out
}

// ── The one-line link summary ───────────────────────────────────────────────────

/// Pieces of text with `sep` between each two.
pub open spec fn joined_with(parts: Seq<Seq<char>>, sep: Seq<char>) -> Seq<char>
    decreases parts.len(),
{
    if parts.len() == 0 {
        Seq::empty()
    } else if parts.len() == 1 {
        parts[0]
    } else {
        joined_with(parts.drop_last(), sep) + sep + parts.last()
    }
}

/// What the summary line reports about the link: peers through a relay, peers reached
/// directly, the worst round trip, and the dropouts heard, each only when there is one.
pub open spec fn link_parts(app: App) -> Seq<Seq<char>> {
    let d = app.audio_dropouts;
    (if app.link.relayed > 0 { seq![decimal(app.link.relayed as nat) + " relay"@] } else { Seq::empty() })
        + (if app.link.direct > 0 { seq![decimal(app.link.direct as nat) + " direct"@] } else { Seq::empty() })
        + (match app.link.worst_rtt {
            Some(ms) => seq![decimal(ms as nat) + "ms"@],
            None => Seq::empty(),
        })
        + (if d > 0 { seq!["⚠ "@ + decimal(d as nat) + " dropout"@ + (if d == 1 { Seq::empty() } else { "s"@ })] } else { Seq::empty() })
}

/// The status line: the settings screen's keys there; elsewhere the shortcuts until
/// there is a link to report, then the link.
pub open spec fn link_summary_spec(app: App) -> Seq<char> {
    if app.view_mode == ViewMode::Settings {
        "Tab section · ↑/↓ navigate · Enter apply · Space test · r rescan · Esc back"@
    } else if !app.voice_available || app.link.direct + app.link.relayed == 0 {
        "Tab channel · F2 voice · F3 mute · F6 settings · Ctrl+C quit"@
    } else {
        joined_with(link_parts(app), " · "@)
    }
}

fn join_parts(parts: &Vec<String>, sep: &str) -> (r: String)
    ensures
        r@ == joined_with(parts.deep_view(), sep@),
{
    let ghost all = parts.deep_view();
    let mut out = String::new();
    let mut i: usize = 0;
    while i < parts.len()
        invariant
            i <= parts@.len(),
            all == parts.deep_view(),
            out@ == joined_with(all.take(i as int), sep@),
        decreases parts@.len() - i,
    {
        assert(all.take(i + 1).drop_last() =~= all.take(i as int));
        assert(all[i as int] == parts@[i as int]@);
        if i > 0 {
            out.append(sep);
        } else {
            assert(all.take(1) =~= seq![all[0]]);
        }
        out.append(parts[i].as_str());
        i = i + 1;
    }
    assert(all.take(i as int) =~= all);
    out
}

fn push_part(parts: &mut Vec<String>, part: String)
    ensures
        final(parts).deep_view() == old(parts).deep_view().push(part@),
{
    let ghost before = parts.deep_view();
    let ghost p = part@;
    parts.push(part);
    assert(parts.deep_view() =~= before.push(p));
}

pub fn link_summary(app: &App) -> (r: String)
    ensures
        r@ == link_summary_spec(*app),
{
    if app.view_mode == ViewMode::Settings {
        return String::from_str("Tab section · ↑/↓ navigate · Enter apply · Space test · r rescan · Esc back");
    }
    if !app.voice_available || (app.link.direct == 0 && app.link.relayed == 0) {
        return String::from_str("Tab channel · F2 voice · F3 mute · F6 settings · Ctrl+C quit");
    }
    proof {
        reveal_strlit(" relay");
        reveal_strlit(" direct");
        reveal_strlit("ms");
        reveal_strlit("⚠ ");
        reveal_strlit(" dropout");
        reveal_strlit("s");
    }
    let mut parts: Vec<String> = Vec::new();
    let ghost p0 = parts.deep_view();
    assert(p0 =~= Seq::<Seq<char>>::empty());
    if app.link.relayed > 0 {
        let mut t = crate::text::decimal_string(app.link.relayed as u64);
        t.append(" relay");
        push_part(&mut parts, t);
    }
    let ghost p1 = parts.deep_view();
    if app.link.direct > 0 {
        let mut t = crate::text::decimal_string(app.link.direct as u64);
        t.append(" direct");
        push_part(&mut parts, t);
    }
    let ghost p2 = parts.deep_view();
    if let Some(ms) = app.link.worst_rtt {
        let mut t = crate::text::decimal_wide(ms);
        t.append("ms");
        push_part(&mut parts, t);
    }
    let ghost p3 = parts.deep_view();
    let d = app.audio_dropouts;
    if d > 0 {
        let mut t = String::from_str("⚠ ");
        t.append(crate::text::decimal_string(d).as_str());
        t.append(" dropout");
        if d != 1 {
            t.append("s");
        }
        push_part(&mut parts, t);
    }
    let ghost d_v = app.audio_dropouts;
    assert(parts.deep_view() =~= link_parts(*app));
    join_parts(&parts, " · ")
}

// ── Laws of the chat pane ───────────────────────────────────────────────────────

proof fn lemma_fold_takes_a_row(text: Seq<char>, width: nat)
    ensures
        fold_spec(text, width).len() >= 1,
{
}

proof fn lemma_blocks_cover_lines(
    visible: Seq<Line>,
    k: nat,
    clocks: Seq<Seq<char>>,
    names_v: Map<PeerId, Seq<char>>,
    me: PeerId,
    time: nat,
    names: nat,
    room: nat,
    note: char,
    cut: char,
)
    requires
        k <= visible.len(),
    ensures
        blocks_spec(visible, k, clocks, names_v, me, time, names, room, note, cut).len() >= k,
    decreases k,
{
    if k > 0 {
        lemma_blocks_cover_lines(visible, (k - 1) as nat, clocks, names_v, me, time, names, room, note, cut);
        let line = visible[k - 1];
        match line {
            Line::Chat(chat) => lemma_fold_takes_a_row(chat.text@, room),
            Line::Notice { text, .. } => lemma_fold_takes_a_row(text@, room),
        }
    }
}

/// Every line of the conversation takes at least one row of the transcript.
pub proof fn lemma_every_line_takes_a_row(width: u16, app: App, note: char, cut: char, clocks: Seq<Seq<char>>)
    ensures
        transcript_spec(width, app, note, cut, clocks).len() >= visible_of(app.lines@, app.viewing).len(),
{
    let visible = visible_of(app.lines@, app.viewing);
    let time = columns_spec(width).0;
    let names = name_column_spec(speaker_widths(visible, app.names_v()), columns_spec(width).1);
    let gutter = time + names + AFTER_NAME;
    let spare = if width >= gutter + 1 { width - (gutter + 1) } else { 0 };
    let room = if spare > 8 { spare } else { 8 };
    lemma_blocks_cover_lines(visible, visible.len(), clocks, app.names_v(), app.me, time as nat, names as nat, room as nat, note, cut);
}

/// Once anyone has spoken, the chat pane is exactly as tall as it is given, and its
/// bottom row is the newest row of the transcript: the conversation hangs from the
/// bottom, where the newest line is.
pub proof fn lemma_the_conversation_hangs_from_the_bottom(
    width: u16,
    height: u16,
    app: App,
    recently_dropped: bool,
    g: Glyphs,
    clocks: Seq<Seq<char>>,
)
    requires
        visible_of(app.lines@, app.viewing).len() > 0,
    ensures
        talk_spec(width, height, app, recently_dropped, g, clocks).len() == height,
        height > 0 ==> talk_spec(width, height, app, recently_dropped, g, clocks).last() == transcript_spec(
            width,
            app,
            g.note,
            g.cut,
            clocks,
        ).last(),
{
    lemma_every_line_takes_a_row(width, app, g.note, g.cut, clocks);
    let lines = transcript_spec(width, app, g.note, g.cut, clocks);
    let h = height as int;
    let start = if lines.len() > h { lines.len() - h } else { 0 };
    let spare = if h > lines.len() { h - lines.len() } else { 0 };
    let top = if spare >= CANS_ROWS + CANS_GAP && width >= DIAGRAM_NEEDS_WIDTH {
        blank_rows(((spare - CANS_ROWS) / 2) as nat) + cans_spec(width, app, recently_dropped, g)
    } else {
        Seq::empty()
    };
    assert(top.len() <= spare);
    let shown = top + blank_rows((spare - top.len()) as nat) + lines.skip(start);
    assert(shown == talk_spec(width, height, app, recently_dropped, g, clocks));
    if height > 0 {
        assert(shown.last() == lines.skip(start).last());
    }
}

/// The string between the cans is exactly as long as the gap it spans: a knot, or the
/// cut end of a string nobody holds, does not stretch it.
pub proof fn lemma_the_string_fills_its_gap(gap: nat, knot: bool, hanging: bool, strand: Strand, string: char, knot_glyph: char, cut: char)
    ensures
        row_text(string_spec(gap, knot, hanging, strand, string, knot_glyph, cut)).len() == gap,
{
    let pieces = string_spec(gap, knot, hanging, strand, string, knot_glyph, cut);
    assert(row_text(pieces) == row_text(pieces.drop_last()) + pieces.last().0);
    if hanging || !knot || gap < 5 {
        assert(pieces.drop_last() =~= Seq::<(Seq<char>, Tone)>::empty());
    } else {
        let two = pieces.drop_last();
        assert(row_text(two) == row_text(two.drop_last()) + two.last().0);
        let one = two.drop_last();
        assert(row_text(one) == row_text(one.drop_last()) + one.last().0);
        assert(one.drop_last() =~= Seq::<(Seq<char>, Tone)>::empty());
    }
}

} // verus!
