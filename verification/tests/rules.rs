//! Names, rooms and texts.
use null_terminal::clock::{now_ms, stamp};
use null_terminal::validate::{
    clean_file_name, clean_nickname, clean_room, clean_text, is_invisible, nickname_key,
    ValidationError, MAX_FILE_NAME_CHARS, MAX_FRAME_BYTES, MAX_NICKNAME_CHARS, MAX_ROOM_CHARS,
    MAX_TEXT_CHARS,
};

#[test]
fn file_names_are_made_safe() {
    assert_eq!(clean_file_name("кот.jpg"), "кот.jpg");
    // A name comes from a client and must not be able to point at a path.
    assert_eq!(clean_file_name("../../etc/passwd"), ".._.._etc_passwd");
    assert_eq!(clean_file_name("  "), "файл");
    assert_eq!(clean_file_name("a\u{1b}b.png"), "a_b.png");
    assert!(clean_file_name(&"я".repeat(200)).chars().count() <= MAX_FILE_NAME_CHARS);
}

#[test]
fn nicknames() {
    assert_eq!(clean_nickname("  alice ").unwrap(), "alice");
    assert_eq!(clean_nickname("Алиса").unwrap(), "Алиса");
    assert!(matches!(clean_nickname("   "), Err(ValidationError::Empty { .. })));
    assert!(matches!(clean_nickname("a b"), Err(ValidationError::IllegalChar { .. })));
    assert!(matches!(clean_nickname("a\u{200b}b"), Err(ValidationError::IllegalChar { .. })));
    assert!(matches!(clean_nickname("a\u{1b}[31m"), Err(ValidationError::IllegalChar { .. })));
    let long = "a".repeat(MAX_NICKNAME_CHARS + 1);
    assert!(matches!(clean_nickname(&long), Err(ValidationError::TooLong { .. })));
    // The limit is counted in characters, not in bytes.
    assert!(clean_nickname(&"я".repeat(MAX_NICKNAME_CHARS)).is_ok());
}

#[test]
fn lib_nickname_uniqueness_ignores_case() {
    assert_eq!(nickname_key("Alice"), nickname_key("alice"));
    assert_ne!(nickname_key("alice"), nickname_key("alice2"));
}

#[test]
fn rooms() {
    assert_eq!(clean_room(" General ").unwrap(), "general");
    assert_eq!(clean_room("room-1_x").unwrap(), "room-1_x");
    assert!(matches!(clean_room(""), Err(ValidationError::Empty { .. })));
    assert!(matches!(clean_room("общая"), Err(ValidationError::IllegalChar { .. })));
    assert!(matches!(clean_room("a/b"), Err(ValidationError::IllegalChar { .. })));
    let long = "a".repeat(MAX_ROOM_CHARS + 1);
    assert!(matches!(clean_room(&long), Err(ValidationError::TooLong { .. })));
}

#[test]
fn texts() {
    assert_eq!(clean_text("  привет  ").unwrap(), "привет");
    // What was pasted in several lines becomes one.
    assert_eq!(clean_text("одна\nдве\r\nтри").unwrap(), "одна две три");
    assert_eq!(clean_text("a\t\tb").unwrap(), "a b");
    // Control sequences of a terminal must not reach the screen.
    assert_eq!(clean_text("\u{1b}[31mred\u{1b}[0m").unwrap(), "[31mred[0m");
    assert!(matches!(clean_text("   \n\t "), Err(ValidationError::Empty { .. })));
    assert!(matches!(clean_text("\u{200b}"), Err(ValidationError::Empty { .. })));
    let long = "a".repeat(MAX_TEXT_CHARS + 1);
    assert!(matches!(clean_text(&long), Err(ValidationError::TooLong { .. })));
}

#[test]
fn oversized_input_is_rejected_before_char_scan() {
    let huge = "a".repeat(MAX_FRAME_BYTES + 1);
    assert!(matches!(
        clean_text(&huge),
        Err(ValidationError::TooLong { max: MAX_FRAME_BYTES, .. })
    ));
}

#[test]
fn now_ms_is_sane() {
    // Later than the first of January 2020: seconds taken for milliseconds would show.
    assert!(now_ms() > 1_577_836_800_000);
}

#[test]
fn a_clock_before_its_beginning_shows_zero() {
    assert_eq!(stamp(None), 0);
    assert_eq!(stamp(Some(1_700_000_000_000)), 1_700_000_000_000);
}

#[test]
fn invisible_characters_are_known() {
    assert!(is_invisible('\u{200b}'));
    assert!(!is_invisible('a'));
}

#[test]
fn cleaning_twice_changes_nothing() {
    for raw in ["  alice ", "Алиса", "bob_1"] {
        let once = clean_nickname(raw).unwrap();
        assert_eq!(clean_nickname(&once).unwrap(), once);
    }
    for raw in [" General ", "room-1_x"] {
        let once = clean_room(raw).unwrap();
        assert_eq!(clean_room(&once).unwrap(), once);
    }
    for raw in ["  привет  ", "одна\nдве", "a\t\tb"] {
        let once = clean_text(raw).unwrap();
        assert_eq!(clean_text(&once).unwrap(), once);
    }
}

#[test]
fn problems_are_told_in_words() {
    let empty = clean_nickname(" ").unwrap_err().sentence();
    let long = clean_nickname(&"a".repeat(MAX_NICKNAME_CHARS + 1)).unwrap_err().sentence();
    let illegal = clean_nickname("a b").unwrap_err().sentence();
    assert!(!empty.is_empty() && !long.is_empty() && !illegal.is_empty());
    assert!(long.contains(&MAX_NICKNAME_CHARS.to_string()), "{long}");
    assert!(illegal.contains("' '"), "{illegal}");
}
