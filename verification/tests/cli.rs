use tincan::cli::{nickname, shell_word};

#[test]
fn room_names_are_quoted_only_when_the_shell_needs_it() {
    assert_eq!(shell_word("lobby"), "lobby");
    assert_eq!(shell_word("game-night_2"), "game-night_2");
    assert_eq!(shell_word("game night"), "'game night'");
    assert_eq!(shell_word("bob's"), "'bob'\\''s'");
}

#[test]
fn letters_beyond_ascii_need_no_quotes() {
    assert_eq!(shell_word("café.v2"), "café.v2");
    assert_eq!(shell_word("a$b"), "'a$b'");
    assert_eq!(shell_word(""), "");
}

#[test]
fn the_nickname_falls_back_to_the_login_name_then_guest() {
    assert_eq!(nickname(Some("ada".to_string()), Some("root".to_string())), "ada");
    assert_eq!(nickname(None, Some("root".to_string())), "root");
    assert_eq!(nickname(None, None), "guest");
}
