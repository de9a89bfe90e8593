//! Text layout for the panes: columns, padding, clipping and word wrap. Widths are
//! counted in characters, as the terminal lays them out.
use vstd::prelude::*;
use vstd::string::StringExecFns;

use crate::text::{chars_of, is_white, is_whitespace, string_of};

verus! {

/// Messages from one person closer together than this (in seconds) share a heading.
pub const GROUPING_WINDOW: u64 = 300;

/// The time column and the ceiling for the name column on a wide terminal.
pub const COLUMNS_WIDE: (usize, usize) = (7, 14);

/// The same on a narrow one, where a gutter that is right for a wide terminal would
/// squeeze the words out.
pub const COLUMNS_TIGHT: (usize, usize) = (6, 10);

/// The gap between a name and what it said.
pub const AFTER_NAME: usize = 2;

/// The name column never gets narrower than this.
pub const NAME_FLOOR: usize = 4;

/// Below this width the tight columns are used.
pub const TIGHT_UNDER: u16 = 68;

/// The widest the drawing of the cans gets.
pub const DIAGRAM_MAX: usize = 68;

/// How much of the line goes to the time, and the ceiling for the name column.
pub fn columns(width: u16) -> (r: (usize, usize))
    ensures
        r == (if width >= TIGHT_UNDER { COLUMNS_WIDE } else { COLUMNS_TIGHT }),
{
    if width >= TIGHT_UNDER {
        COLUMNS_WIDE
    } else {
        COLUMNS_TIGHT
    }
}

/// The longest of some name lengths, or 0 for none.
pub open spec fn widest(lengths: Seq<usize>) -> usize
    decreases lengths.len(),
{
    if lengths.len() == 0 {
        0
    } else if lengths.last() > widest(lengths.drop_last()) {
        lengths.last()
    } else {
        widest(lengths.drop_last())
    }
}

/// The width of the name column for names of these lengths: the longest, kept between
/// the floor and the ceiling; the floor when nobody speaks.
pub open spec fn name_column_spec(lengths: Seq<usize>, ceiling: usize) -> usize {
    if lengths.len() == 0 {
        NAME_FLOOR
    } else {
        let w = widest(lengths);
        if w < NAME_FLOOR {
            NAME_FLOOR
        } else if w > ceiling {
            ceiling
        } else {
            w
        }
    }
}

/// The name column is only as wide as the names in this conversation (`names` are the
/// lengths of the names that speak on screen), kept between the floor and the ceiling.
pub fn name_column(names: &[usize], ceiling: usize) -> (r: usize)
    requires
        ceiling >= NAME_FLOOR,
    ensures
        r == name_column_spec(names@, ceiling),
        NAME_FLOOR <= r <= ceiling,
{
    if names.len() == 0 {
        return NAME_FLOOR;
    }
    let mut most: usize = 0;
    let mut i: usize = 0;
    while i < names.len()
        invariant
            i <= names@.len(),
            most == widest(names@.take(i as int)),
        decreases names@.len() - i,
    {
        assert(names@.take(i + 1).drop_last() =~= names@.take(i as int));
        if names[i] > most {
            most = names[i];
        }
        i = i + 1;
    }
    assert(names@.take(i as int) =~= names@);
    if most < NAME_FLOOR {
        NAME_FLOOR
    } else if most > ceiling {
        ceiling
    } else {
        most
    }
}

/// `count` spaces.
pub open spec fn spaces(count: nat) -> Seq<char> {
    Seq::new(count, |i: int| ' ')
}

fn push_spaces(out: &mut String, count: usize)
    ensures
        final(out)@ == old(out)@ + spaces(count as nat),
{
    let mut k: usize = 0;
    while k < count
        invariant
            k <= count,
            out@ == old(out)@ + spaces(k as nat),
        decreases count - k,
    {
        out.append(" ");
        k = k + 1;
        proof {
            reveal_strlit(" ");
            assert(out@ =~= old(out)@ + spaces(k as nat));
        }
    }
}

/// The margin that centres the drawing of the cans.
pub fn margin_for(width: u16) -> (r: String)
    ensures
        ({
            let w = width as int;
            let span = if w >= 4 { if w - 4 < DIAGRAM_MAX { w - 4 } else { DIAGRAM_MAX as int } } else { 0 };
            r@ == spaces(((w - span) / 2) as nat)
        }),
{
    let w = width as usize;
    let less = if w >= 4 { w - 4 } else { 0 };
    let span = if less < DIAGRAM_MAX { less } else { DIAGRAM_MAX };
    let mut out = String::new();
    push_spaces(&mut out, (w - span) / 2);
    assert(out@ =~= spaces(((w - span) / 2) as nat));
    out
}

/// Text padded with spaces on the right to `width` characters.
pub fn pad(text: &str, width: usize) -> (r: String)
    ensures
        r@ == text@ + spaces(if text@.len() < width { (width - text@.len()) as nat } else { 0 }),
{
    let count = chars_of(text).len();
    let short = if count < width { width - count } else { 0 };
    let mut out = text.to_owned();
    push_spaces(&mut out, short);
    out
}

/// Text padded with spaces on the left to `width` characters.
pub fn pad_left(text: &str, width: usize) -> (r: String)
    ensures
        r@ == spaces(if text@.len() < width { (width - text@.len()) as nat } else { 0 }) + text@,
{
    let count = chars_of(text).len();
    let short = if count < width { width - count } else { 0 };
    let mut out = String::new();
    push_spaces(&mut out, short);
    out.append(text);
    assert(out@ =~= spaces(short as nat) + text@);
    out
}

/// Cut to width, with `cut` at the end when something was lost.
pub open spec fn clip_spec(text: Seq<char>, width: nat, cut: char) -> Seq<char> {
    if text.len() <= width {
        text
    } else if width <= 1 {
        text.take(width as int)
    } else {
        text.take(width - 1).push(cut)
    }
}

pub fn clip(text: &str, width: usize, cut: char) -> (r: String)
    ensures
        r@ == clip_spec(text@, width as nat, cut),
{
    let chars = chars_of(text);
    if chars.len() <= width {
        return text.to_owned();
    }
    let keep = if width <= 1 { width } else { width - 1 };
    let mut kept: Vec<char> = Vec::new();
    let mut i: usize = 0;
    while i < keep
        invariant
            keep < chars@.len(),
            i <= keep,
            kept@ == chars@.take(i as int),
        decreases keep - i,
    {
        kept.push(chars[i]);
        i = i + 1;
        assert(kept@ =~= chars@.take(i as int));
    }
    if width > 1 {
        kept.push(cut);
    }
    string_of(kept.as_slice())
}

/// A clipped line is never wider than asked.
pub proof fn lemma_clip_fits(text: Seq<char>, width: nat, cut: char)
    ensures
        clip_spec(text, width, cut).len() <= width,
{
}

/// The first nine characters of the invite code, and an ellipsis.
pub fn short_code(code: &str) -> (r: String)
    ensures
        r@ == code@.take(if code@.len() < 9 { code@.len() as int } else { 9 }).push('…'),
{
    let chars = chars_of(code);
    let keep = if chars.len() < 9 { chars.len() } else { 9 };
    let mut head: Vec<char> = Vec::new();
    let mut i: usize = 0;
    while i < keep
        invariant
            keep <= chars@.len(),
            i <= keep,
            head@ == chars@.take(i as int),
        decreases keep - i,
    {
        head.push(chars[i]);
        i = i + 1;
        assert(head@ =~= chars@.take(i as int));
    }
    head.push('…');
    string_of(head.as_slice())
}

/// The footer hints, shortened a step at a time rather than cut mid-word.
pub open spec fn fit_spec(text: Seq<char>, width: nat) -> Seq<char> {
    let steps = seq![
        "Tab · F2 voice · F3 mute · F6 settings · Ctrl+C quit"@,
        "Tab · F2 voice · F6 settings · Ctrl+C"@,
        "F6 settings · Ctrl+C quit"@,
        "Ctrl+C quit"@,
    ];
    if text.len() <= width {
        text
    } else if steps[0].len() <= width {
        steps[0]
    } else if steps[1].len() <= width {
        steps[1]
    } else if steps[2].len() <= width {
        steps[2]
    } else if steps[3].len() <= width {
        steps[3]
    } else {
        text.take(width as int)
    }
}

fn owned_if_fits(step: &'static str, width: usize) -> (r: Option<String>)
    ensures
        step@.len() <= width ==> (r matches Some(s) && s@ == step@),
        step@.len() > width ==> r is None,
{
    if chars_of(step).len() <= width {
        Some(String::from_str(step))
    } else {
        None
    }
}

pub fn fit(text: &str, width: usize) -> (r: String)
    ensures
        r@ == fit_spec(text@, width as nat),
{
    let chars = chars_of(text);
    if chars.len() <= width {
        return text.to_owned();
    }
    if let Some(s) = owned_if_fits("Tab · F2 voice · F3 mute · F6 settings · Ctrl+C quit", width) {
        return s;
    }
    if let Some(s) = owned_if_fits("Tab · F2 voice · F6 settings · Ctrl+C", width) {
        return s;
    }
    if let Some(s) = owned_if_fits("F6 settings · Ctrl+C quit", width) {
        return s;
    }
    if let Some(s) = owned_if_fits("Ctrl+C quit", width) {
        return s;
    }
    let mut kept: Vec<char> = Vec::new();
    let mut i: usize = 0;
    while i < width
        invariant
            width < chars@.len(),
            i <= width,
            kept@ == chars@.take(i as int),
        decreases width - i,
    {
        kept.push(chars[i]);
        i = i + 1;
        assert(kept@ =~= chars@.take(i as int));
    }
    string_of(kept.as_slice())
}

} // verus!
verus! {

// ── Word wrap ───────────────────────────────────────────────────────────────────

/// The words of a text: its maximal runs of non-whitespace, as `str::split_whitespace`
/// gives them.
pub open spec fn words_of(text: Seq<char>) -> Seq<Seq<char>>
    decreases text.len(),
{
    if text.len() == 0 {
        Seq::empty()
    } else {
        let before = words_of(text.drop_last());
        let c = text.last();
        if is_white(c) {
            before
        } else if text.len() > 1 && !is_white(text[text.len() - 2]) {
            before.update(before.len() - 1, before.last().push(c))
        } else {
            before.push(seq![c])
        }
    }
}

/// The lines of a wrapped text laid end to end.
pub open spec fn joined(lines: Seq<Seq<char>>) -> Seq<char>
    decreases lines.len(),
{
    if lines.len() == 0 {
        Seq::empty()
    } else {
        joined(lines.drop_last()) + lines.last()
    }
}

/// A text with its spaces taken out.
pub open spec fn without_spaces(s: Seq<char>) -> Seq<char>
    decreases s.len(),
{
    if s.len() == 0 {
        Seq::empty()
    } else if s.last() == ' ' {
        without_spaces(s.drop_last())
    } else {
        without_spaces(s.drop_last()).push(s.last())
    }
}

/// A text with all its whitespace taken out.
pub open spec fn without_whitespace(s: Seq<char>) -> Seq<char>
    decreases s.len(),
{
    if s.len() == 0 {
        Seq::empty()
    } else if is_white(s.last()) {
        without_whitespace(s.drop_last())
    } else {
        without_whitespace(s.drop_last()).push(s.last())
    }
}

/// One word placed on the lines so far, `current` being the line still open.
///
/// A word longer than the column is broken rather than let push the layout around;
/// otherwise it joins the open line after a space if it fits there, and starts a new
/// line if it does not.
pub open spec fn place_word(lines: Seq<Seq<char>>, current: Seq<char>, word: Seq<char>, width: nat) -> (Seq<Seq<char>>, Seq<char>)
    decreases word.len(),
{
    if width == 0 || word.len() == 0 {
        (lines, current)
    } else if word.len() > width {
        let flushed = if current.len() > 0 { lines.push(current) } else { lines };
        place_word(flushed.push(word.take(width as int)), Seq::empty(), word.skip(width as int), width)
    } else if current.len() == 0 {
        (lines, word)
    } else if current.len() + 1 + word.len() > width {
        (lines.push(current), word)
    } else {
        (lines, current.push(' ') + word)
    }
}

/// The words placed one after another.
pub open spec fn place_words(words: Seq<Seq<char>>, width: nat) -> (Seq<Seq<char>>, Seq<char>)
    decreases words.len(),
{
    if words.len() == 0 {
        (Seq::empty(), Seq::empty())
    } else {
        let (lines, current) = place_words(words.drop_last(), width);
        place_word(lines, current, words.last(), width)
    }
}

/// A text wrapped to a column (never narrower than one character). The line still
/// open at the end is kept, and an empty text still takes a row.
pub open spec fn fold_spec(text: Seq<char>, width: nat) -> Seq<Seq<char>> {
    let w: nat = if width == 0 { 1 } else { width };
    let (lines, current) = place_words(words_of(text), w);
    if current.len() > 0 || lines.len() == 0 {
        lines.push(current)
    } else {
        lines
    }
}

pub open spec fn no_white(w: Seq<char>) -> bool {
    forall|i: int| 0 <= i < w.len() ==> !is_white(#[trigger] w[i])
}

pub open spec fn all_within(lines: Seq<Seq<char>>, width: nat) -> bool {
    forall|i: int| 0 <= i < lines.len() ==> (#[trigger] lines[i]).len() <= width
}

proof fn lemma_words_shape(text: Seq<char>)
    ensures
        forall|k: int| 0 <= k < words_of(text).len() ==> (#[trigger] words_of(text)[k]).len() > 0 && no_white(words_of(text)[k]),
        text.len() > 0 && !is_white(text.last()) ==> words_of(text).len() > 0,
        joined(words_of(text)) == without_whitespace(text),
    decreases text.len(),
{
    if text.len() > 0 {
        let t = text.drop_last();
        lemma_words_shape(t);
        let before = words_of(t);
        let c = text.last();
        if is_white(c) {
        } else if text.len() > 1 && !is_white(text[text.len() - 2]) {
            assert(t.last() == text[text.len() - 2]);
            let after = before.update(before.len() - 1, before.last().push(c));
            assert forall|k: int| 0 <= k < after.len() implies (#[trigger] after[k]).len() > 0 && no_white(after[k]) by {
                if k == before.len() - 1 {
                    assert(no_white(before[k]));
                    assert forall|i: int| 0 <= i < after[k].len() implies !is_white(#[trigger] after[k][i]) by {
                        if i < before[k].len() {
                            assert(after[k][i] == before[k][i]);
                        }
                    }
                }
            }
            assert(after.drop_last() =~= before.drop_last());
            assert(joined(before) == joined(before.drop_last()) + before.last());
            assert(joined(after) =~= joined(before).push(c));
        } else {
            let after = before.push(seq![c]);
            assert(after.drop_last() =~= before);
            assert forall|k: int| 0 <= k < after.len() implies (#[trigger] after[k]).len() > 0 && no_white(after[k]) by {
                if k < before.len() {
                    assert(after[k] == before[k]);
                }
            }
            assert(joined(after) =~= joined(before).push(c));
        }
    }
}

proof fn lemma_without_spaces_add(a: Seq<char>, b: Seq<char>)
    ensures
        without_spaces(a + b) == without_spaces(a) + without_spaces(b),
    decreases b.len(),
{
    if b.len() == 0 {
        assert(a + b =~= a);
        assert(without_spaces(a) + without_spaces(b) =~= without_spaces(a));
    } else {
        lemma_without_spaces_add(a, b.drop_last());
        assert((a + b).drop_last() =~= a + b.drop_last());
        if b.last() != ' ' {
            assert(without_spaces(a) + without_spaces(b) =~= (without_spaces(a) + without_spaces(b.drop_last())).push(b.last()));
        }
    }
}

proof fn lemma_without_spaces_word(w: Seq<char>)
    requires
        no_white(w),
    ensures
        without_spaces(w) == w,
    decreases w.len(),
{
    if w.len() > 0 {
        assert(no_white(w.drop_last())) by {
            assert forall|i: int| 0 <= i < w.drop_last().len() implies !is_white(#[trigger] w.drop_last()[i]) by {
                assert(w.drop_last()[i] == w[i]);
            }
        }
        lemma_without_spaces_word(w.drop_last());
        assert(!is_white(w[w.len() - 1]));
        assert(w.drop_last().push(w.last()) =~= w);
    }
}

proof fn lemma_joined_push(lines: Seq<Seq<char>>, line: Seq<char>)
    ensures
        joined(lines.push(line)) == joined(lines) + line,
{
    assert(lines.push(line).drop_last() =~= lines);
}

/// Placing a word keeps every line within the column, and adds exactly the word's
/// characters to what the lines say once the spaces are taken out.
proof fn lemma_place_word(lines: Seq<Seq<char>>, current: Seq<char>, word: Seq<char>, width: nat)
    requires
        width > 0,
        no_white(word),
        all_within(lines, width),
        current.len() <= width,
    ensures
        ({
            let (l, c) = place_word(lines, current, word, width);
            &&& all_within(l, width)
            &&& c.len() <= width
            &&& without_spaces(joined(l) + c) == without_spaces(joined(lines) + current) + word
        }),
    decreases word.len(),
{
    if word.len() == 0 {
        assert(without_spaces(joined(lines) + current) + word =~= without_spaces(joined(lines) + current));
    } else if word.len() > width {
        let flushed = if current.len() > 0 { lines.push(current) } else { lines };
        let head = word.take(width as int);
        let tail = word.skip(width as int);
        let next = flushed.push(head);
        assert(all_within(next, width)) by {
            assert forall|i: int| 0 <= i < next.len() implies (#[trigger] next[i]).len() <= width by {
                if i < lines.len() {
                    assert(next[i] == lines[i]);
                }
            }
        }
        assert(no_white(tail)) by {
            assert forall|i: int| 0 <= i < tail.len() implies !is_white(#[trigger] tail[i]) by {
                assert(tail[i] == word[i + width]);
            }
        }
        assert(no_white(head)) by {
            assert forall|i: int| 0 <= i < head.len() implies !is_white(#[trigger] head[i]) by {
                assert(head[i] == word[i]);
            }
        }
        lemma_place_word(next, Seq::empty(), tail, width);
        lemma_joined_push(lines, current);
        lemma_joined_push(flushed, head);
        assert(joined(next) + Seq::<char>::empty() =~= joined(next));
        assert(joined(flushed) + head == joined(next));
        if current.len() > 0 {
            assert(joined(flushed) == joined(lines) + current);
        } else {
            assert(joined(lines) + current =~= joined(lines));
        }
        lemma_without_spaces_add(joined(flushed), head);
        lemma_without_spaces_word(head);
        lemma_without_spaces_word(tail);
        assert(word =~= head + tail);
        let (l, c) = place_word(next, Seq::empty(), tail, width);
        assert(without_spaces(joined(l) + c) == without_spaces(joined(next)) + tail);
        assert(without_spaces(joined(flushed)) == without_spaces(joined(lines) + current));
    } else if current.len() == 0 {
        assert(joined(lines) + current =~= joined(lines));
        lemma_without_spaces_add(joined(lines), word);
        lemma_without_spaces_word(word);
    } else if current.len() + 1 + word.len() > width {
        let next = lines.push(current);
        assert(all_within(next, width)) by {
            assert forall|i: int| 0 <= i < next.len() implies (#[trigger] next[i]).len() <= width by {
                if i < lines.len() {
                    assert(next[i] == lines[i]);
                }
            }
        }
        lemma_joined_push(lines, current);
        lemma_without_spaces_add(joined(next), word);
        lemma_without_spaces_word(word);
    } else {
        let c = current.push(' ') + word;
        assert(joined(lines) + c =~= (joined(lines) + current).push(' ') + word);
        lemma_without_spaces_add((joined(lines) + current).push(' '), word);
        lemma_without_spaces_word(word);
        assert((joined(lines) + current).push(' ').drop_last() =~= joined(lines) + current);
    }
}

proof fn lemma_place_words(words: Seq<Seq<char>>, width: nat)
    requires
        width > 0,
        forall|k: int| 0 <= k < words.len() ==> no_white(#[trigger] words[k]),
    ensures
        ({
            let (l, c) = place_words(words, width);
            &&& all_within(l, width)
            &&& c.len() <= width
            &&& without_spaces(joined(l) + c) == joined(words)
        }),
    decreases words.len(),
{
    if words.len() == 0 {
        assert(joined(Seq::<Seq<char>>::empty()) + Seq::<char>::empty() =~= Seq::<char>::empty());
    } else {
        let rest = words.drop_last();
        assert forall|k: int| 0 <= k < rest.len() implies no_white(#[trigger] rest[k]) by {
            assert(rest[k] == words[k]);
        }
        lemma_place_words(rest, width);
        let (l, c) = place_words(rest, width);
        assert(no_white(words[words.len() - 1]));
        lemma_place_word(l, c, words.last(), width);
    }
}

/// A folded line never runs past the column (taken as at least one character).
pub proof fn lemma_fold_fits(text: Seq<char>, width: nat)
    ensures
        all_within(fold_spec(text, width), if width == 0 { 1 } else { width }),
{
    let w: nat = if width == 0 { 1 } else { width };
    lemma_words_shape(text);
    lemma_place_words(words_of(text), w);
    let (l, c) = place_words(words_of(text), w);
    let f = fold_spec(text, width);
    assert forall|i: int| 0 <= i < f.len() implies (#[trigger] f[i]).len() <= w by {
        if i < l.len() {
            assert(f[i] == l[i]);
        }
    }
}

/// Folding loses no word and adds nothing but spaces: with the spaces taken out, the
/// lines say exactly what the text says with its whitespace taken out.
pub proof fn lemma_fold_keeps_every_word(text: Seq<char>, width: nat)
    ensures
        without_spaces(joined(fold_spec(text, width))) == without_whitespace(text),
{
    let w: nat = if width == 0 { 1 } else { width };
    lemma_words_shape(text);
    lemma_place_words(words_of(text), w);
    let (l, c) = place_words(words_of(text), w);
    if c.len() > 0 || l.len() == 0 {
        lemma_joined_push(l, c);
    } else {
        assert(joined(l) + c =~= joined(l));
    }
}

fn copy_range(word: &Vec<char>, start: usize, end: usize) -> (r: Vec<char>)
    requires
        start <= end <= word@.len(),
    ensures
        r@ == word@.subrange(start as int, end as int),
{
    let mut out: Vec<char> = Vec::new();
    let mut k = start;
    while k < end
        invariant
            start <= k <= end <= word@.len(),
            out@ == word@.subrange(start as int, k as int),
        decreases end - k,
    {
        out.push(word[k]);
        k = k + 1;
        assert(out@ =~= word@.subrange(start as int, k as int));
    }
    out
}

pub open spec fn views(lines: Seq<Vec<char>>) -> Seq<Seq<char>> {
    lines.map_values(|v: Vec<char>| v@)
}

proof fn lemma_views_push(lines: Seq<Vec<char>>, v: Vec<char>)
    ensures
        views(lines.push(v)) == views(lines).push(v@),
{
    assert(views(lines.push(v)) =~= views(lines).push(v@));
}

fn split_words(text: &str) -> (r: Vec<Vec<char>>)
    ensures
        views(r@) == words_of(text@),
{
    let chars = chars_of(text);
    let mut words: Vec<Vec<char>> = Vec::new();
    let mut word: Vec<char> = Vec::new();
    let mut i: usize = 0;
    while i < chars.len()
        invariant
            i <= chars@.len(),
            (if word@.len() > 0 { views(words@).push(word@) } else { views(words@) }) == words_of(chars@.take(i as int)),
            word@.len() > 0 <==> (i > 0 && !is_white(chars@[i - 1])),
        decreases chars@.len() - i,
    {
        let c = chars[i];
        let ghost before = if word@.len() > 0 { views(words@).push(word@) } else { views(words@) };
        assert(chars@.take(i + 1).drop_last() =~= chars@.take(i as int));
        assert(chars@.take(i + 1).last() == c);
        if is_whitespace(c) {
            if word.len() > 0 {
                proof {
                    lemma_views_push(words@, word);
                }
                words.push(word);
                word = Vec::new();
            }
        } else {
            if word.len() > 0 {
                assert(chars@.take(i + 1)[i - 1] == chars@[i - 1]);
                word.push(c);
                assert(before.update(before.len() - 1, before.last().push(c)) =~= views(words@).push(word@));
            } else {
                word.push(c);
                assert(word@ =~= seq![c]);
            }
        }
        i = i + 1;
    }
    assert(chars@.take(i as int) =~= chars@);
    if word.len() > 0 {
        proof {
            lemma_views_push(words@, word);
        }
        words.push(word);
    }
    words
}

/// Wraps at spaces, and breaks a word that is longer than the column rather than
/// letting it push the layout around.
pub fn fold(text: &str, width: usize) -> (r: Vec<String>)
    ensures
        r@.len() == fold_spec(text@, width as nat).len(),
        forall|i: int| 0 <= i < r@.len() ==> (#[trigger] r@[i])@ == fold_spec(text@, width as nat)[i],
{
    let w: usize = if width == 0 { 1 } else { width };
    let words = split_words(text);
    proof {
        lemma_words_shape(text@);
    }
    let ghost all = views(words@);
    let mut lines: Vec<Vec<char>> = Vec::new();
    let mut current: Vec<char> = Vec::new();
    let mut j: usize = 0;
    while j < words.len()
        invariant
            j <= words@.len(),
            w > 0,
            all == views(words@),
            all == words_of(text@),
            (views(lines@), current@) == place_words(all.take(j as int), w as nat),
        decreases words@.len() - j,
    {
        let word = &words[j];
        let ghost lines0 = views(lines@);
        let ghost current0 = current@;
        assert(all.take(j + 1).drop_last() =~= all.take(j as int));
        assert(all.take(j + 1).last() == word@);
        let mut start: usize = 0;
        assert(word@.skip(0) =~= word@);
        while word.len() - start > w
            invariant
                start <= word@.len(),
                w > 0,
                place_word(lines0, current0, word@, w as nat) == place_word(
                    views(lines@),
                    current@,
                    word@.skip(start as int),
                    w as nat,
                ),
            decreases word@.len() - start,
        {
            let ghost rest = word@.skip(start as int);
            let ghost flushed = if current@.len() > 0 { views(lines@).push(current@) } else { views(lines@) };
            if current.len() > 0 {
                proof {
                    lemma_views_push(lines@, current);
                }
                lines.push(current);
                current = Vec::new();
            }
            let head = copy_range(word, start, start + w);
            assert(head@ =~= rest.take(w as int));
            proof {
                lemma_views_push(lines@, head);
            }
            lines.push(head);
            start = start + w;
            assert(rest.skip(w as int) =~= word@.skip(start as int));
            assert(current@ =~= Seq::<char>::empty());
            assert(views(lines@) == flushed.push(rest.take(w as int)));
        }
        let rest = copy_range(word, start, word.len());
        assert(rest@ =~= word@.skip(start as int));
        if rest.len() == 0 {
        } else if current.len() == 0 {
            current = rest;
        } else if current.len() >= w - rest.len() {
            proof {
                lemma_views_push(lines@, current);
            }
            lines.push(current);
            current = rest;
        } else {
            let ghost joined_up = current@.push(' ') + rest@;
            current.push(' ');
            let mut k: usize = 0;
            let ghost opened = current@;
            while k < rest.len()
                invariant
                    k <= rest@.len(),
                    current@ == opened + rest@.take(k as int),
                decreases rest@.len() - k,
            {
                current.push(rest[k]);
                k = k + 1;
                assert(current@ =~= opened + rest@.take(k as int));
            }
            assert(rest@.take(k as int) =~= rest@);
        }
        j = j + 1;
    }
    assert(all.take(j as int) =~= all);
    if current.len() > 0 || lines.len() == 0 {
        proof {
            lemma_views_push(lines@, current);
        }
        lines.push(current);
    }
    let ghost folded = views(lines@);
    assert(folded == fold_spec(text@, width as nat));
    let mut out: Vec<String> = Vec::new();
    let mut i: usize = 0;
    while i < lines.len()
        invariant
            i <= lines@.len(),
            folded == views(lines@),
            out@.len() == i,
            forall|k: int| 0 <= k < i ==> (#[trigger] out@[k])@ == folded[k],
        decreases lines@.len() - i,
    {
        out.push(string_of(lines[i].as_slice()));
        i = i + 1;
    }
    out
}

} // verus!
verus! {

// ── Blocks in the transcript ────────────────────────────────────────────────────

/// Who spoke last and when, if the last line was a person's.
pub open spec fn last_speaker(lines: Seq<crate::ui::Line>) -> Option<(crate::proto::PeerId, u64)> {
    if lines.len() == 0 {
        None
    } else {
        match lines.last() {
            crate::ui::Line::Chat(chat) => Some((chat.from, chat.at)),
            crate::ui::Line::Notice { .. } => None,
        }
    }
}

/// Whether a line carries a heading (its time, and for a message its author). A
/// message from the person who spoke last, less than `GROUPING_WINDOW` seconds after
/// them, continues their block without one. A notice is the room talking: it always
/// shows its time, and breaks any block.
pub open spec fn heads_block(previous: Option<(crate::proto::PeerId, u64)>, line: crate::ui::Line) -> bool {
    match line {
        crate::ui::Line::Chat(chat) => match previous {
            Some((who, when)) => !(who == chat.from && (if chat.at >= when { chat.at - when } else { 0 }) < GROUPING_WINDOW),
            None => true,
        },
        crate::ui::Line::Notice { .. } => true,
    }
}

/// For each line of a transcript, whether it carries a heading.
pub fn headings(lines: &[&crate::ui::Line]) -> (r: Vec<bool>)
    ensures
        r@.len() == lines@.len(),
        forall|i: int| 0 <= i < r@.len() ==> #[trigger] r@[i] == heads_block(
            last_speaker(lines@.take(i).map_values(|l: &crate::ui::Line| *l)),
            *lines@[i],
        ),
{
    let ghost all = lines@.map_values(|l: &crate::ui::Line| *l);
    let mut out: Vec<bool> = Vec::new();
    let mut previous: Option<(crate::proto::PeerId, u64)> = None;
    let mut i: usize = 0;
    while i < lines.len()
        invariant
            i <= lines@.len(),
            all == lines@.map_values(|l: &crate::ui::Line| *l),
            out@.len() == i,
            previous == last_speaker(all.take(i as int)),
            forall|k: int| 0 <= k < i ==> #[trigger] out@[k] == heads_block(
                last_speaker(lines@.take(k).map_values(|l: &crate::ui::Line| *l)),
                *lines@[k],
            ),
        decreases lines@.len() - i,
    {
        let line = lines[i];
        assert(all.take(i as int) =~= lines@.take(i as int).map_values(|l: &crate::ui::Line| *l));
        let heads = match line {
            crate::ui::Line::Chat(chat) => match previous {
                Some((who, when)) => {
                    let gap = if chat.at >= when { chat.at - when } else { 0 };
                    !(who.same(&chat.from) && gap < GROUPING_WINDOW)
                },
                None => true,
            },
            crate::ui::Line::Notice { .. } => true,
        };
        out.push(heads);
        previous = match line {
            crate::ui::Line::Chat(chat) => Some((chat.from, chat.at)),
            crate::ui::Line::Notice { .. } => None,
        };
        i = i + 1;
        assert(all.take(i as int).drop_last() =~= all.take(i - 1));
        assert(all.take(i as int).last() == *lines@[i - 1]);
    }
    out
}

} // verus!
