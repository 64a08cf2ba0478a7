use pty_sessions::validation::{validate_filename, validate_theme, MAX_FILENAME_CHARS};
use regex::Regex;

const INVALID: &str =
    "Invalid filename: only alphanumeric characters, dashes, underscores, and dots allowed";

#[test]
fn plain_names_are_accepted() {
    assert_eq!(validate_filename("notes"), Ok(()));
    assert_eq!(validate_filename("notes.txt"), Ok(()));
    assert_eq!(validate_filename("my-file_2.JSON5"), Ok(()));
    assert_eq!(validate_filename("-"), Ok(()));
    assert_eq!(validate_filename("_.a"), Ok(()));
    assert_eq!(validate_filename("A"), Ok(()));
}

#[test]
fn empty_name_is_refused() {
    assert_eq!(validate_filename(""), Err("Filename cannot be empty".to_string()));
}

#[test]
fn length_is_counted_in_characters() {
    let longest = "a".repeat(MAX_FILENAME_CHARS);
    assert_eq!(validate_filename(&longest), Ok(()));
    let too_long = "a".repeat(MAX_FILENAME_CHARS + 1);
    assert_eq!(
        validate_filename(&too_long),
        Err("Filename too long (max 100 characters)".to_string())
    );
    // 100 characters of two bytes each are not too long, only not plain.
    let wide = "é".repeat(100);
    assert_eq!(validate_filename(&wide), Err(INVALID.to_string()));
    let wide_too_long = "é".repeat(101);
    assert_eq!(
        validate_filename(&wide_too_long),
        Err("Filename too long (max 100 characters)".to_string())
    );
}

#[test]
fn names_outside_the_pattern_are_refused() {
    for name in [
        ".", "..", ".hidden", "name.", "a.b.c", "a..b", "a/b", "../etc", "a b", "a.t-x", "a.t_x",
        "a.txt\n", "a\n", "naïve", "a.é", "a\\b", "a.txt ", " a", "a\0",
    ] {
        assert_eq!(validate_filename(name), Err(INVALID.to_string()), "{name:?}");
    }
}

#[test]
fn filename_check_agrees_with_the_pattern() {
    let pattern = Regex::new(r"^[a-zA-Z0-9_-]+(\.[a-zA-Z0-9]+)?$").unwrap();
    let pieces = ["", "a", "Z9", "_", "-", ".", "..", "é", "\n", " ", "/", "x.y", "0"];
    let mut checked = 0;
    for a in pieces {
        for b in pieces {
            for c in pieces {
                let name = format!("{a}{b}{c}");
                if name.is_empty() {
                    continue;
                }
                assert_eq!(
                    validate_filename(&name).is_ok(),
                    pattern.is_match(&name),
                    "{name:?}"
                );
                checked += 1;
            }
        }
    }
    assert!(checked > 2000);
}

#[test]
fn theme_names() {
    assert_eq!(validate_theme("light"), Ok(()));
    assert_eq!(validate_theme("dark"), Ok(()));
    assert_eq!(validate_theme("system"), Ok(()));
    for other in ["", "Dark", "dark ", "blue", "systems", "ligh"] {
        assert_eq!(
            validate_theme(other),
            Err("Invalid theme: must be 'light', 'dark', or 'system'".to_string()),
            "{other:?}"
        );
    }
}
