use screen_watch::matching::{characters, contains_chars, matching_phrases, text_contains};

fn owned(items: &[&str]) -> Vec<String> {
    items.iter().map(|s| s.to_string()).collect()
}

#[test]
fn finds_the_phrase_inside_a_sentence() {
    let phrases = owned(&["Enter Dungeon", "Game Over"]);
    let found = matching_phrases("Welcome to the Enter Dungeon screen", &phrases);
    assert_eq!(found, owned(&["Enter Dungeon"]));
}

#[test]
fn reports_every_phrase_that_occurs_in_target_order() {
    let phrases = owned(&["Over", "Dungeon", "Victory", "Game"]);
    let found = matching_phrases("Dungeon cleared. Game Over", &phrases);
    assert_eq!(found, owned(&["Over", "Dungeon", "Game"]));
}

#[test]
fn reports_nothing_when_no_phrase_occurs() {
    let phrases = owned(&["Enter Dungeon", "Game Over"]);
    let found = matching_phrases("Loading...", &phrases);
    assert_eq!(found, Vec::<String>::new());
}

#[test]
fn reports_nothing_without_target_phrases() {
    let found = matching_phrases("Enter Dungeon", &Vec::new());
    assert_eq!(found, Vec::<String>::new());
}

#[test]
fn a_phrase_listed_twice_is_reported_twice() {
    let phrases = owned(&["Game", "Game"]);
    let found = matching_phrases("Game Over", &phrases);
    assert_eq!(found, owned(&["Game", "Game"]));
}

#[test]
fn matching_is_case_sensitive() {
    assert!(text_contains("Enter Dungeon", "Enter Dungeon"));
    assert!(!text_contains("enter dungeon", "Enter Dungeon"));
    assert!(!text_contains("ENTER DUNGEON", "Enter Dungeon"));
}

#[test]
fn matching_does_not_normalise_whitespace() {
    assert!(!text_contains("Enter  Dungeon", "Enter Dungeon"));
    assert!(!text_contains("Enter\nDungeon", "Enter Dungeon"));
    assert!(!text_contains("EnterDungeon", "Enter Dungeon"));
    assert!(text_contains(" Enter Dungeon ", "Enter Dungeon"));
}

#[test]
fn the_empty_phrase_occurs_everywhere() {
    assert!(text_contains("anything", ""));
    assert!(text_contains("", ""));
}

#[test]
fn a_phrase_longer_than_the_text_does_not_occur() {
    assert!(!text_contains("Game", "Game Over"));
    assert!(!text_contains("", "x"));
}

#[test]
fn finds_a_phrase_at_either_end() {
    assert!(text_contains("Game Over", "Game"));
    assert!(text_contains("Game Over", "Over"));
    assert!(text_contains("Game Over", "Game Over"));
    assert!(!text_contains("Game Over", "Over "));
}

#[test]
fn finds_a_phrase_after_a_false_start() {
    assert!(text_contains("aaab", "aab"));
    assert!(text_contains("GaGame", "Game"));
    assert!(!text_contains("GaGam", "Game"));
}

#[test]
fn matches_text_beyond_ascii() {
    assert!(text_contains("Bienvenue au donjon h\u{e9}ro\u{ef}que", "h\u{e9}ro\u{ef}que"));
    assert!(!text_contains("Bienvenue au donjon heroique", "h\u{e9}ro\u{ef}que"));
    assert!(text_contains("\u{5730}\u{4e0b}\u{57ce}\u{306b}\u{5165}\u{308b}", "\u{57ce}\u{306b}"));
}

#[test]
fn characters_are_the_chars_of_the_text() {
    assert_eq!(characters("a\u{e9}\u{5730}"), vec!['a', '\u{e9}', '\u{5730}']);
    assert_eq!(characters(""), Vec::<char>::new());
}

#[test]
fn searches_character_vectors() {
    let text = characters("Welcome to the Enter Dungeon screen");
    assert!(contains_chars(&text, &characters("Enter Dungeon")));
    assert!(!contains_chars(&text, &characters("Game Over")));
}

#[test]
fn agrees_with_the_standard_substring_search() {
    let texts = ["", "a", "ab", "aab", "abab", "Game Over", "h\u{e9}h\u{e9}", "\u{5730}\u{4e0b}"];
    let phrases = ["", "a", "b", "ab", "ba", "aab", "Over", "\u{e9}h", "\u{4e0b}", "\u{e9}"];
    for text in texts {
        for phrase in phrases {
            assert_eq!(text_contains(text, phrase), text.contains(phrase));
        }
    }
}
