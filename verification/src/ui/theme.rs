//! Glyphs: every mark the interface draws, so that the ASCII fallback is one table away.
//! Colour and styling stay outside the library.
use vstd::prelude::*;
use vstd::utf8::is_ascii_chars;

use crate::room::{ascii_lower, same_ignoring_ascii_case};
use crate::text::{chars_of, contains_text, has_infix};
use crate::ui::screen::lowercase_ascii;

verus! {

/// How the string between the rail and the chat is drawn. Derived from the live link:
/// it reports, it does not decorate.
#[derive(Debug, Clone, Copy, PartialEq, Eq, Structural)]
pub enum Strand {
    /// Nobody on the other end yet.
    Idle,
    /// Everyone reached directly: the string is taut.
    Taut,
    /// Someone is coming through a relay: the string sags.
    Slack,
    /// Audio is dropping out: the string is fraying.
    Frayed,
}

/// Where a strand's glyph sits in `Glyphs::strand`.
pub open spec fn strand_index(strand: Strand) -> int {
    match strand {
        Strand::Idle => 0,
        Strand::Taut => 1,
        Strand::Slack => 2,
        Strand::Frayed => 3,
    }
}

/// The two cans and the string between them, drawn on the empty chat screen.
pub struct CanArt {
    pub lid: &'static str,
    pub top: &'static str,
    pub body: &'static str,
    pub bottom: &'static str,
    pub string: char,
    pub knot: char,
}

/// Every glyph the interface draws.
pub struct Glyphs {
    /// Indexed by `Strand`: idle, taut, slack, frayed.
    pub strand: [char; 4],
    /// Travels along the string while someone is talking.
    pub pulse: char,
    /// Marks the channel being read.
    pub cursor: char,
    /// Marks the channel we are talking in.
    pub on_air: char,
    /// Five steps of the three-cell level meter, silence first.
    pub meter: [&'static str; 5],
    /// Takes the meter's place beside someone you have silenced.
    pub silenced: &'static str,
    /// The long meter on the microphone test: a lit cell and an unlit one.
    pub bar: [char; 2],
    /// The text cursor in the message field.
    pub caret: char,
    /// Marks a line the room wrote rather than a person.
    pub note: char,
    /// The mark that says a name or a message was cut to fit.
    pub cut: char,
    /// The separator between two facts sharing a line.
    pub dot: &'static str,
    pub can: CanArt,
}

/// Each state of the string looks different from every other.
pub open spec fn strands_distinct(g: Glyphs) -> bool {
    forall|i: int, j: int| 0 <= i < 4 && 0 <= j < 4 && i != j ==> g.strand@[i] != g.strand@[j]
}

/// Every meter step, and the mark that replaces the meter, is three cells wide, so
/// the name beside it never shifts.
pub open spec fn meter_steps_even(g: Glyphs) -> bool {
    &&& forall|i: int| 0 <= i < 5 ==> (#[trigger] g.meter@[i])@.len() == 3
    &&& g.silenced@.len() == 3
}

pub open spec fn ascii_char(c: char) -> bool {
    (c as u32) < 128
}

/// Every mark in the table is ASCII.
pub open spec fn all_ascii(g: Glyphs) -> bool {
    &&& forall|i: int| 0 <= i < 4 ==> ascii_char(#[trigger] g.strand@[i])
    &&& ascii_char(g.pulse) && ascii_char(g.cursor) && ascii_char(g.on_air)
    &&& forall|i: int| 0 <= i < 5 ==> is_ascii_chars((#[trigger] g.meter@[i])@)
    &&& is_ascii_chars(g.silenced@)
    &&& ascii_char(g.bar@[0]) && ascii_char(g.bar@[1])
    &&& ascii_char(g.caret) && ascii_char(g.note) && ascii_char(g.cut)
    &&& is_ascii_chars(g.dot@)
    &&& is_ascii_chars(g.can.lid@) && is_ascii_chars(g.can.top@) && is_ascii_chars(g.can.body@)
    &&& is_ascii_chars(g.can.bottom@)
    &&& ascii_char(g.can.string) && ascii_char(g.can.knot)
}

impl Glyphs {
    /// Box drawing and the rest of Unicode, for a terminal that can show them.
    pub fn unicode() -> (r: Glyphs)
        ensures
            strands_distinct(r),
            meter_steps_even(r),
    {
        let g = Glyphs {
            strand: ['·', '│', '╎', '┆'],
            pulse: '⟩',
            cursor: '▸',
            on_air: '●',
            meter: ["···", "▁··", "▁▃·", "▁▃▅", "▃▅▇"],
            silenced: " × ",
            bar: ['█', '░'],
            caret: '▏',
            note: '·',
            cut: '…',
            dot: " · ",
            can: CanArt {
                lid: "( o )",
                top: "┌─────┐",
                body: "│     │",
                bottom: "└─────┘",
                string: '╌',
                knot: '◦',
            },
        };
        proof {
            reveal_strlit("···");
            reveal_strlit("▁··");
            reveal_strlit("▁▃·");
            reveal_strlit("▁▃▅");
            reveal_strlit("▃▅▇");
            reveal_strlit(" × ");
        }
        g
    }

    /// The fallback for a terminal that cannot be trusted with anything but ASCII.
    pub fn ascii() -> (r: Glyphs)
        ensures
            strands_distinct(r),
            meter_steps_even(r),
            all_ascii(r),
    {
        let g = Glyphs {
            strand: ['.', '|', ':', '!'],
            pulse: '>',
            cursor: '>',
            on_air: '*',
            meter: ["...", "-..", "--.", "---", "==="],
            silenced: " x ",
            bar: ['#', '.'],
            caret: '_',
            note: '-',
            cut: '~',
            dot: " - ",
            can: CanArt {
                lid: "( o )",
                top: "+-----+",
                body: "|     |",
                bottom: "+-----+",
                string: '-',
                knot: 'o',
            },
        };
        proof {
            reveal_strlit("...");
            reveal_strlit("-..");
            reveal_strlit("--.");
            reveal_strlit("---");
            reveal_strlit("===");
            reveal_strlit(" - ");
            reveal_strlit(" x ");
            reveal_strlit("( o )");
            reveal_strlit("+-----+");
            reveal_strlit("|     |");
        }
        g
    }

    /// The glyph the string is drawn with in a given state.
    pub fn strand_glyph(&self, strand: Strand) -> (r: char)
        ensures
            r == self.strand@[strand_index(strand)],
    {
        match strand {
            Strand::Idle => self.strand[0],
            Strand::Taut => self.strand[1],
            Strand::Slack => self.strand[2],
            Strand::Frayed => self.strand[3],
        }
    }

    /// The meter step for a level; anything past the top reads as the top.
    pub fn meter_step(&self, level: u8) -> (r: &'static str)
        ensures
            r == self.meter@[if level < 4 { level as int } else { 4 }],
    {
        if level < 4 {
            self.meter[level as usize]
        } else {
            self.meter[4]
        }
    }
}

/// The environment variables the look of the interface is read from, each as the
/// process found it (`None` when unset or not text).
pub struct Environment {
    pub no_color: Option<String>,
    pub tincan_ascii: Option<String>,
    pub tincan_theme: Option<String>,
    pub colorterm: Option<String>,
    pub tincan_no_motion: Option<String>,
    pub no_motion: Option<String>,
    pub lc_all: Option<String>,
    pub lc_ctype: Option<String>,
    pub lang: Option<String>,
}

/// Which set of colours the interface is drawn in.
#[derive(Debug, Clone, Copy, PartialEq, Eq, Structural)]
pub enum Palette {
    /// No colour at all: weight carries the meaning.
    Mono,
    LightTrue,
    Light256,
    DarkTrue,
    Dark256,
}

/// How the interface looks on this terminal.
#[derive(Debug, Clone, Copy, PartialEq, Eq, Structural)]
pub struct Look {
    pub palette: Palette,
    /// No glyph outside ASCII.
    pub ascii: bool,
    /// Whether the string may animate.
    pub motion: bool,
    /// Colour is off.
    pub mono: bool,
}

/// A variable that is set to something.
pub open spec fn set_spec(value: Option<String>) -> bool {
    value matches Some(v) && v@.len() > 0
}

fn is_set(value: &Option<String>) -> (r: bool)
    ensures
        r == set_spec(*value),
{
    match value {
        Some(v) => chars_of(v.as_str()).len() > 0,
        None => false,
    }
}

/// A locale value that names UTF-8, in any case.
pub open spec fn says_utf8(value: Seq<char>) -> bool {
    let lower = value.map_values(|c: char| ascii_lower(c));
    has_infix(lower, "utf-8"@) || has_infix(lower, "utf8"@)
}

/// Box drawing is only safe when the locale says the terminal speaks UTF-8: when one
/// of the locale variables that is set names it. When none is set at all, it is
/// assumed to (the common case on macOS).
pub open spec fn locale_utf8_spec(values: Seq<Option<String>>) -> bool {
    ||| exists|i: int| 0 <= i < values.len() && set_spec(#[trigger] values[i]) && says_utf8(values[i]->0@)
    ||| forall|i: int| 0 <= i < values.len() ==> !set_spec(#[trigger] values[i])
}

/// Whether the locale, read from `LC_ALL`, `LC_CTYPE` and `LANG` in turn, says UTF-8.
pub fn locale_is_utf8(values: &Vec<Option<String>>) -> (r: bool)
    ensures
        r == locale_utf8_spec(values@),
{
    let mut saw_one = false;
    let mut i: usize = 0;
    while i < values.len()
        invariant
            i <= values@.len(),
            saw_one <==> exists|k: int| 0 <= k < i && set_spec(#[trigger] values@[k]),
            forall|k: int| 0 <= k < i && set_spec(#[trigger] values@[k]) ==> !says_utf8(values@[k]->0@),
        decreases values@.len() - i,
    {
        if is_set(&values[i]) {
            saw_one = true;
            match &values[i] {
                Some(value) => {
                    let lower = lowercase_ascii(value.as_str());
                    if contains_text(lower.as_str(), "utf-8") || contains_text(lower.as_str(), "utf8") {
                        return true;
                    }
                },
                None => {},
            }
        }
        i = i + 1;
    }
    !saw_one
}

/// How the environment asks the interface to look: `NO_COLOR` turns colour off,
/// `TINCAN_THEME=light` puts the same hues on a paper ground, `COLORTERM` says whether
/// the terminal takes true colour, `TINCAN_ASCII` (or a locale without UTF-8) keeps to
/// ASCII, and `TINCAN_NO_MOTION` or `NO_MOTION` holds the string still.
pub open spec fn look_spec(env: Environment) -> Look {
    let mono = set_spec(env.no_color);
    let ascii = set_spec(env.tincan_ascii) || !locale_utf8_spec(seq![env.lc_all, env.lc_ctype, env.lang]);
    let light = env.tincan_theme matches Some(v) && same_ignoring_ascii_case(v@, "light"@);
    let truecolor = env.colorterm matches Some(v) && (has_infix(v@, "truecolor"@) || has_infix(v@, "24bit"@));
    let palette = if mono {
        Palette::Mono
    } else if light {
        if truecolor { Palette::LightTrue } else { Palette::Light256 }
    } else {
        if truecolor { Palette::DarkTrue } else { Palette::Dark256 }
    };
    Look { palette, ascii, motion: !(set_spec(env.tincan_no_motion) || set_spec(env.no_motion)), mono }
}

pub fn look(env: &Environment) -> (r: Look)
    ensures
        r == look_spec(*env),
{
    let mono = is_set(&env.no_color);
    let locales = vec![env.lc_all.clone(), env.lc_ctype.clone(), env.lang.clone()];
    assert(locales@ =~= seq![env.lc_all, env.lc_ctype, env.lang]);
    let ascii = is_set(&env.tincan_ascii) || !locale_is_utf8(&locales);
    let light = match &env.tincan_theme {
        Some(v) => {
            let word = chars_of("light");
            crate::room::same_ignoring_case(chars_of(v.as_str()).as_slice(), word.as_slice())
        },
        None => false,
    };
    let truecolor = match &env.colorterm {
        Some(v) => contains_text(v.as_str(), "truecolor") || contains_text(v.as_str(), "24bit"),
        None => false,
    };
    let palette = if mono {
        Palette::Mono
    } else if light {
        if truecolor { Palette::LightTrue } else { Palette::Light256 }
    } else {
        if truecolor { Palette::DarkTrue } else { Palette::Dark256 }
    };
    let motion = !(is_set(&env.tincan_no_motion) || is_set(&env.no_motion));
    Look { palette, ascii, motion, mono }
}

/// The narrowest terminal the interface supports: no colour, no glyph outside ASCII,
/// no motion.
pub fn austere() -> (r: Look)
    ensures
        r == (Look { palette: Palette::Mono, ascii: true, motion: false, mono: true }),
{
    Look { palette: Palette::Mono, ascii: true, motion: false, mono: true }
}

} // verus!
