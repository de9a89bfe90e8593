use tincan::logo::{
    banner_text, code, heading, painted_banner, painted_row, BANNER, BANNER_ASCII, BRASS, NAME, OFF, PATINA, TIN, ZINC,
};
use tincan::text::{find_text, split_lines};

#[test]
fn the_ascii_banner_is_actually_ascii() {
    assert!(BANNER_ASCII.is_ascii());
}

#[test]
fn both_banners_are_the_same_shape() {
    assert_eq!(BANNER.lines().count(), BANNER_ASCII.lines().count());
    for (fancy, plain) in BANNER.lines().zip(BANNER_ASCII.lines()) {
        assert_eq!(
            fancy.chars().count(),
            plain.chars().count(),
            "the fallback must not shift the drawing:\n{fancy}\n{plain}"
        );
    }
}

#[test]
fn both_banners_carry_the_name() {
    assert!(BANNER.contains("t i n c a n"));
    assert!(BANNER_ASCII.contains("t i n c a n"));
}

// ── Further cases ────────────────────────────────────────────────────────────────

#[test]
fn headings_and_codes_are_painted_unless_plain() {
    assert_eq!(heading("hello", true), "hello");
    assert_eq!(heading("hello", false), format!("{ZINC}hello{OFF}"));
    assert_eq!(code("abc", true), "abc");
    assert_eq!(code("abc", false), format!("{BRASS}abc{OFF}"));
    assert_eq!(banner_text(true), BANNER_ASCII);
    assert_eq!(banner_text(false), BANNER);
}

fn chars(s: &str) -> Vec<char> {
    s.chars().collect()
}

fn lines(s: &str) -> Vec<String> {
    split_lines(&chars(s)).into_iter().map(|l| l.into_iter().collect()).collect()
}

#[test]
fn lines_split_as_str_lines_does() {
    for text in ["", "\n", "a", "a\n", "a\nb", "a\r\nb\r\n", "\n\nx\n\n", "tail\r", BANNER, BANNER_ASCII] {
        let expected: Vec<String> = text.lines().map(str::to_string).collect();
        assert_eq!(lines(text), expected, "{text:?}");
    }
}

#[test]
fn the_name_is_found_where_it_first_starts() {
    assert_eq!(find_text(&chars("abcabc"), &chars("bc")), Some(1));
    assert_eq!(find_text(&chars("abc"), &chars("")), Some(0));
    assert_eq!(find_text(&chars("abc"), &chars("abcd")), None);
    assert_eq!(find_text(&chars("abc"), &chars("x")), None);
    assert_eq!(find_text(&chars("aab"), &chars("ab")), Some(1));
}

#[test]
fn only_the_row_with_the_name_is_painted_brass_and_patina() {
    assert_eq!(painted_row(&chars("  ( o )")), format!("{TIN}  ( o ){OFF}"));
    assert_eq!(
        painted_row(&chars("--- t i n c a n --")),
        format!("{BRASS}--- {PATINA}{NAME}{BRASS} --{OFF}")
    );
}

#[test]
fn the_painted_banner_keeps_every_row_of_the_drawing() {
    for ascii in [false, true] {
        let art = banner_text(ascii);
        let rows = painted_banner(ascii);
        assert_eq!(rows.len(), art.lines().count());
        for (painted, row) in rows.iter().zip(art.lines()) {
            let expected = match row.split_once("t i n c a n") {
                Some((head, tail)) => format!("{BRASS}{head}{PATINA}t i n c a n{BRASS}{tail}{OFF}"),
                None => format!("{TIN}{row}{OFF}"),
            };
            assert_eq!(painted, &expected);
        }
        assert_eq!(rows.iter().filter(|r| r.contains(PATINA)).count(), 1);
    }
}
