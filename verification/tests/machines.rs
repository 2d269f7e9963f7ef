use jinspect::regex::{Regex, RegexError};
use jinspect::turnstile::{Event, State, Turnstile};

#[test]
fn turnstile_follows_its_transition_table() {
    let mut t = Turnstile::new();
    assert_eq!(t.state(), State::Locked);
    t.next(Event::Push);
    assert_eq!(t.state(), State::Locked);
    t.next(Event::Coin);
    assert_eq!(t.state(), State::Unlocked);
    t.next(Event::Coin);
    assert_eq!(t.state(), State::Unlocked);
    t.next(Event::Push);
    assert_eq!(t.state(), State::Locked);
    assert_eq!(t.state().to_string(), "Locked");
    assert_eq!(State::Unlocked.to_string(), "Unlocked");
}

#[test]
fn regex_literal_pattern() {
    let re = Regex::compile("abc$").unwrap();
    assert_eq!(re.matches("abc"), true);
    assert_eq!(re.matches("dbc"), false);
    assert_eq!(re.matches("adb"), false);
    assert_eq!(re.matches("hello, world"), false);
}

#[test]
fn regex_dot_matches_any_printable_symbol() {
    let re = Regex::compile(".bc").unwrap();
    assert_eq!(re.matches("abc"), true);
    assert_eq!(re.matches("bbc"), true);
    assert_eq!(re.matches("0bc"), true);
    assert_eq!(re.matches("cbd"), false);
    assert_eq!(re.matches("Hello World"), false);
}

#[test]
fn regex_symbol_range() {
    let re = Regex::compile("[0-3]bc").unwrap();
    assert_eq!(re.matches("0bc"), true);
    assert_eq!(re.matches("1bc"), true);
    assert_eq!(re.matches("3bc"), true);
    assert_eq!(re.matches("4bc"), false);
    assert_eq!(re.matches("abc"), false);
}

#[test]
fn regex_star_repeats_the_previous_column() {
    let re = Regex::compile("a*bc").unwrap();
    assert_eq!(re.matches("abc"), true);
    assert_eq!(re.matches("aaabc"), true);
    assert_eq!(re.matches("bc"), true);
    assert_eq!(re.matches("bbc"), false);
    assert_eq!(re.matches("cbc"), false);
}

#[test]
fn regex_unbalanced_range_is_an_error() {
    assert!(Regex::compile("[0-").is_err());
    assert!(Regex::compile("[abc]").is_err());
}

#[test]
fn regex_second_star_on_same_column_is_an_error() {
    assert!(matches!(Regex::compile("a**"), Err(RegexError::MisplacedStar)));
}

#[test]
fn regex_symbol_outside_alphabet_is_an_error() {
    assert!(matches!(Regex::compile("\u{e9}"), Err(RegexError::UnsupportedSymbol)));
}
