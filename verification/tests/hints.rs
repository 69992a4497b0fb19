//! Tile hints under keyboard layouts.

use wlr_capture::hints::{hints, hints_at, Hint, HintRow, Keymap};

/// What a layout prints on the top row (evdev 2 to 11) and the home row (evdev 30 to 38).
fn rows(layout: &str, variant: &str) -> (&'static str, &'static str) {
    match (layout, variant) {
        ("us", "") => ("1234567890", "asdfghjkl"),
        ("fr", "") => ("&é\"'(-è_çà", "qsdfghjkl"),
        ("ru", "") => ("1234567890", "фывапролд"),
        ("us", "dvorak") => ("1234567890", "aoeuidhtn"),
        ("us", "colemak") => ("1234567890", "arstdhnei"),
        ("de", "") => ("1234567890", "asdfghjkl"),
        ("fr", "bepo") => ("\"«»()@+-/*", "auie,ctsr"),
        _ => panic!("not a layout under test"),
    }
}

/// A compositor keymap, as what each key of it prints. Left Shift (evdev 42) prints nothing.
fn keymap(layout: &str, variant: &str) -> Keymap {
    let (top, home) = rows(layout, variant);
    let row = |first: u32, text: &str| -> Vec<(u32, String)> {
        text.chars().enumerate().map(|(i, c)| (first + i as u32, c.to_string())).collect()
    };
    let mut keys = row(2, top);
    keys.extend(row(30, home));
    keys.push((42, String::new()));
    Keymap { keys }
}

/// A text that is no keymap has no keys.
fn no_keymap() -> Keymap {
    Keymap { keys: vec![] }
}

/// The labels of a row, as a tile would show them.
fn labels(layout: &str, variant: &str, row: HintRow) -> String {
    hints(&keymap(layout, variant), row)
        .iter()
        .map(|h| h.label.as_str())
        .collect()
}

#[test]
fn a_hint_shows_what_the_active_layout_prints_on_that_key() {
    // The same nine physical keys, under three layouts. QWERTY's `a` and AZERTY's `q` are one
    // key: a tile labelled `a` on a French keyboard would be a trap.
    assert_eq!(labels("us", "", HintRow::Home), "asdfghjkl");
    assert_eq!(labels("fr", "", HintRow::Home), "qsdfghjkl");
    assert_eq!(labels("ru", "", HintRow::Home), "фывапролд");
    // And the same ten keys of the row above, where French prints no digit at all.
    assert_eq!(labels("us", "", HintRow::Top), "1234567890");
    assert_eq!(labels("fr", "", HintRow::Top), "&é\"'(-è_çà");
}

#[test]
fn the_home_row_prints_a_letter_on_every_layout_the_top_row_does_not() {
    // Why the home row is the default: it carries letters where the row above carries
    // punctuation, and punctuation is what a tile has to display.
    for (layout, variant) in [("us", "dvorak"), ("us", "colemak"), ("de", "")] {
        assert!(
            labels(layout, variant, HintRow::Home)
                .chars()
                .all(char::is_alphabetic),
            "{layout} {variant}"
        );
    }
    // Bépo is the exception both ways: a comma sits in its home row, and its top row is
    // punctuation throughout.
    assert_eq!(labels("fr", "bepo", HintRow::Home), "auie,ctsr");
    assert_eq!(labels("fr", "bepo", HintRow::Top), "\"«»()@+-/*");
}

#[test]
fn a_key_that_prints_nothing_is_passed_over() {
    // Left Shift (evdev 42) sits between two letters here. It labels no tile, so the tile that
    // would have had it takes the next usable key instead.
    let km = keymap("us", "");
    assert_eq!(
        hints_at(&km, &vec![30, 42, 31]),
        vec![
            Hint { code: 30, label: "a".into() },
            Hint { code: 31, label: "s".into() },
        ]
    );
}

#[test]
fn a_keymap_that_does_not_compile_offers_no_hint() {
    // Nothing to display and nothing to press, rather than a guess at an alphabet.
    assert!(hints(&no_keymap(), HintRow::Home).is_empty());
    assert!(hints(&no_keymap(), HintRow::Top).is_empty());
}

#[test]
fn hints_come_back_in_reading_order_on_their_own_keys() {
    // The order is the row's, left to right, and each hint carries the evdev code a key event
    // will be matched against.
    let km = keymap("fr", "");
    let home = hints(&km, HintRow::Home);
    assert_eq!(
        home.iter().map(|h| h.code).collect::<Vec<_>>(),
        vec![30, 31, 32, 33, 34, 35, 36, 37, 38]
    );
    assert_eq!(hints(&km, HintRow::Top).len(), 10);
}

#[test]
fn only_a_single_glyph_labels_a_tile() {
    let odd = Keymap {
        keys: vec![
            (30, "ab".to_string()),
            (31, " ".to_string()),
            (32, "\u{1b}".to_string()),
            (33, "é".to_string()),
        ],
    };
    assert_eq!(hints(&odd, HintRow::Home), vec![Hint { code: 33, label: "é".into() }]);
}
