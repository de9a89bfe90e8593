use tincan::text::contains_text;
use tincan::ui::screen::replace_all;
use tincan::ui::theme::{austere, locale_is_utf8, look, Environment, Palette};

fn bare() -> Environment {
    Environment {
        no_color: None,
        tincan_ascii: None,
        tincan_theme: None,
        colorterm: None,
        tincan_no_motion: None,
        no_motion: None,
        lc_all: None,
        lc_ctype: None,
        lang: None,
    }
}

#[test]
fn a_plain_environment_gets_the_dark_ground_in_256_colours() {
    let seen = look(&bare());
    assert_eq!(seen.palette, Palette::Dark256);
    assert!(!seen.ascii, "no locale at all is taken to speak UTF-8");
    assert!(seen.motion);
    assert!(!seen.mono);
}

#[test]
fn no_color_wins_over_everything_else() {
    let env = Environment {
        no_color: Some("1".into()),
        tincan_theme: Some("light".into()),
        colorterm: Some("truecolor".into()),
        ..bare()
    };
    let seen = look(&env);
    assert_eq!(seen.palette, Palette::Mono);
    assert!(seen.mono);
}

#[test]
fn an_empty_no_color_is_not_set() {
    let seen = look(&Environment { no_color: Some(String::new()), ..bare() });
    assert!(!seen.mono);
}

#[test]
fn the_light_theme_takes_true_colour_when_the_terminal_offers_it() {
    let light = Environment { tincan_theme: Some("LIGHT".into()), ..bare() };
    assert_eq!(look(&light).palette, Palette::Light256, "the name is read in any case");
    let deep = Environment { colorterm: Some("24bit".into()), ..light };
    assert_eq!(look(&deep).palette, Palette::LightTrue);
    let dark = Environment { colorterm: Some("truecolor".into()), ..bare() };
    assert_eq!(look(&dark).palette, Palette::DarkTrue);
}

#[test]
fn either_motion_variable_holds_the_string_still() {
    assert!(!look(&Environment { tincan_no_motion: Some("1".into()), ..bare() }).motion);
    assert!(!look(&Environment { no_motion: Some("yes".into()), ..bare() }).motion);
}

#[test]
fn a_locale_without_utf8_keeps_to_ascii() {
    let env = Environment { lang: Some("C".into()), ..bare() };
    assert!(look(&env).ascii);
    let env = Environment { lang: Some("en_US.UTF-8".into()), ..bare() };
    assert!(!look(&env).ascii);
    let env = Environment { tincan_ascii: Some("1".into()), lang: Some("en_US.UTF-8".into()), ..bare() };
    assert!(look(&env).ascii, "asking for ASCII wins over a capable locale");
}

#[test]
fn any_locale_variable_that_names_utf8_is_enough() {
    assert!(locale_is_utf8(&vec![Some("C".into()), None, Some("de_DE.utf8".into())]));
    assert!(!locale_is_utf8(&vec![Some("POSIX".into()), Some(String::new()), None]));
    assert!(locale_is_utf8(&vec![Some(String::new()), None, None]), "an empty value is no value");
}

#[test]
fn the_narrowest_terminal_has_nothing_to_spare() {
    let seen = austere();
    assert_eq!(seen.palette, Palette::Mono);
    assert!(seen.ascii && seen.mono && !seen.motion);
}

#[test]
fn replacing_works_from_the_left_without_overlaps() {
    assert_eq!(replace_all("aaa", "aa", "b"), "ba");
    assert_eq!(replace_all("a · b · c", " · ", " - "), "a - b - c");
    assert_eq!(replace_all("nothing here", "xyz", "!"), "nothing here");
}

#[test]
fn containment_finds_a_run_of_characters() {
    assert!(contains_text("en_us.utf-8", "utf-8"));
    assert!(!contains_text("utf", "utf-8"));
    assert!(contains_text("anything", ""));
}
