//! The tin can telephone.
//!
//! Two cans and a string is the whole idea of the program, so it is drawn rather than
//! spelled: for the terminal before the interface takes over, and again, live, on the
//! empty chat screen. Whether the terminal wants colour or plain ASCII is read from the
//! environment outside the library and handed in.
use vstd::prelude::*;
use vstd::string::StringExecFns;
use crate::text::{append_chars, chars_of, find_text, first_at, lines_of, split_lines};

verus! {

/// Plain, for `--help` and anywhere the output might be piped.
pub const BANNER: &'static str = "
   ( o )                            ( o )
  ┌─────┐                          ┌─────┐
  │     │╌╌╌╌╌╌╌╌ t i n c a n ╌╌╌╌╌│     │
  └─────┘                          └─────┘
";

/// The same drawing in ASCII, for terminals that cannot be trusted with box drawing.
pub const BANNER_ASCII: &'static str = "
   ( o )                            ( o )
  +-----+                          +-----+
  |     |--------- t i n c a n ----|     |
  +-----+                          +-----+
";

pub const TIN: &'static str = "\x1b[38;5;252m";
pub const ZINC: &'static str = "\x1b[38;5;245m";
pub const PATINA: &'static str = "\x1b[1;38;5;80m";
pub const BRASS: &'static str = "\x1b[38;5;179m";
pub const OFF: &'static str = "\x1b[0m";

/// The drawing to print.
pub fn banner_text(ascii: bool) -> (r: &'static str)
    ensures
        r == (if ascii { BANNER_ASCII } else { BANNER }),
{
    if ascii {
        BANNER_ASCII
    } else {
        BANNER
    }
}

/// A heading for the plain-terminal output before the interface starts.
pub fn heading(text: &str, plain: bool) -> (r: String)
    ensures
        r@ == (if plain { text@ } else { ZINC@ + text@ + OFF@ }),
{
    if plain {
        return text.to_owned();
    }
    let mut out = String::from_str(ZINC);
    out.append(text);
    out.append(OFF);
    out
}

/// The invite code, or anything else that is the next thing to act on.
pub fn code(text: &str, plain: bool) -> (r: String)
    ensures
        r@ == (if plain { text@ } else { BRASS@ + text@ + OFF@ }),
{
    if plain {
        return text.to_owned();
    }
    let mut out = String::from_str(BRASS);
    out.append(text);
    out.append(OFF);
    out
}

/// The name written on the string, the one thing of the drawing painted patina green.
pub const NAME: &'static str = "t i n c a n";

/// One row of the drawing in colour: where the name is on it, the string is brass and
/// the name patina; a row without the name is bare tin.
pub open spec fn paint_row(row: Seq<char>) -> Seq<char> {
    match first_at(row, NAME@, 0) {
        Some(k) => BRASS@ + row.take(k) + PATINA@ + NAME@ + BRASS@ + row.skip(k + NAME@.len())
            + OFF@,
        None => TIN@ + row + OFF@,
    }
}

proof fn lemma_found_name_fits(row: Seq<char>, k: int)
    requires
        first_at(row, NAME@, 0) == Some(k),
    ensures
        0 <= k,
        k + NAME@.len() <= row.len(),
{
    lemma_first_at_fits(row, NAME@, 0, k);
}

proof fn lemma_first_at_fits(s: Seq<char>, pat: Seq<char>, i: int, k: int)
    requires
        first_at(s, pat, i) == Some(k),
    ensures
        i <= k,
        0 <= k,
        k + pat.len() <= s.len(),
    decreases s.len() - i,
{
    if i < 0 || i + pat.len() > s.len() {
    } else if s.subrange(i, i + pat.len()) == pat {
    } else if i >= s.len() {
    } else {
        lemma_first_at_fits(s, pat, i + 1, k);
    }
}

/// The characters of the drawing.
pub open spec fn drawing(ascii: bool) -> Seq<char> {
    if ascii {
        BANNER_ASCII@
    } else {
        BANNER@
    }
}

/// Paints one row of the drawing.
pub fn painted_row(row: &[char]) -> (r: String)
    ensures
        r@ == paint_row(row@),
{
    let name = chars_of(NAME);
    let n = row.len();
    match find_text(row, name.as_slice()) {
        Some(k) => {
            proof {
                assert(name@ == NAME@);
                lemma_found_name_fits(row@, k as int);
                assert(k + name@.len() <= row@.len());
            }
            let after = k + name.len();
            let mut out = String::from_str(BRASS);
            append_chars(&mut out, row, 0, k);
            out.append(PATINA);
            out.append(NAME);
            out.append(BRASS);
            append_chars(&mut out, row, after, n);
            out.append(OFF);
            assert(row@.subrange(0, k as int) == row@.take(k as int));
            assert(row@.subrange(k + name@.len(), row@.len() as int) == row@.skip(k + NAME@.len()));
            out
        },
        None => {
            let mut out = String::from_str(TIN);
            append_chars(&mut out, row, 0, row.len());
            out.append(OFF);
            assert(row@.subrange(0, row@.len() as int) == row@);
            out
        },
    }
}

/// The drawing for a terminal that wants colour, row by row, ready to print.
pub fn painted_banner(ascii: bool) -> (r: Vec<String>)
    ensures
        r@.len() == lines_of(drawing(ascii)).len(),
        forall|i: int| 0 <= i < r@.len() ==> #[trigger] r@[i]@ == paint_row(lines_of(drawing(ascii))[i]),
{
    let art = chars_of(banner_text(ascii));
    let rows = split_lines(art.as_slice());
    let mut out: Vec<String> = Vec::new();
    let mut i: usize = 0;
    while i < rows.len()
        invariant
            i <= rows@.len(),
            crate::text::views_of(rows@) == lines_of(drawing(ascii)),
            out@.len() == i,
            forall|j: int| 0 <= j < i ==> #[trigger] out@[j]@ == paint_row(rows@[j]@),
        decreases rows@.len() - i,
    {
        out.push(painted_row(rows[i].as_slice()));
        i = i + 1;
    }
    proof {
        assert forall|j: int| 0 <= j < out@.len() implies #[trigger] out@[j]@ == paint_row(
            lines_of(drawing(ascii))[j],
        ) by {
            assert(crate::text::views_of(rows@)[j] == rows@[j]@);
        }
    }
    out
}

} // verus!
