//! What the command lines ask for.

use wlr_capture::chooser::{self, json, window_pid, Format};
use wlr_capture::front::parse_grid;
use wlr_capture::json::read;
use wlr_capture::sources::Selection;

#[test]
fn parse_grid_reads_cols_and_rows() {
    assert_eq!(parse_grid("4x3"), Ok((4, 3)));
    assert_eq!(parse_grid("10X2"), Ok((10, 2)));
    assert_eq!(parse_grid("2×5"), Ok((2, 5)));
    // Surrounding whitespace on either factor is tolerated.
    assert_eq!(parse_grid(" 4 x 3 "), Ok((4, 3)));
}

#[test]
fn parse_grid_rejects_bad_specs() {
    assert!(parse_grid("4").unwrap_err().contains("COLSxROWS"));
    assert!(parse_grid("0x3").unwrap_err().contains("columns"));
    assert!(parse_grid("4x0").unwrap_err().contains("rows"));
    assert!(parse_grid("axb").unwrap_err().contains("columns"));
    assert!(parse_grid("").is_err());
}

/// The picked window, as the overlay hands it back.
fn window(identifier: &str, app_id: &str, title: &str) -> Selection {
    Selection {
        token: format!("Window: {identifier}"),
        is_window: true,
        identifier: identifier.into(),
        app_id: app_id.into(),
        title: title.into(),
        output: String::new(),
        dup_index: 0,
    }
}

/// The picked screen, as the overlay hands it back.
fn screen(name: &str) -> Selection {
    Selection {
        token: format!("Monitor: {name}"),
        is_window: false,
        identifier: String::new(),
        app_id: String::new(),
        title: String::new(),
        output: name.into(),
        dup_index: 0,
    }
}

#[test]
fn the_json_line_names_what_a_script_can_act_on() {
    // The app id and title are what `wlr-shot --app-id` / `--title` take, the pid is what a
    // script can signal; the identifier alone would be opaque to all of them.
    assert_eq!(
        json(&window("ext-7", "foot", "vim"), Some(4242)),
        r#"{"app-id":"foot","identifier":"ext-7","pid":4242,"title":"vim","type":"window"}"#
    );
    // A compositor that names no process leaves the key out, so a script can tell an unknown
    // pid from one it could read.
    assert_eq!(
        json(&window("ext-7", "foot", "vim"), None),
        r#"{"app-id":"foot","identifier":"ext-7","title":"vim","type":"window"}"#
    );
    // A screen is addressed by its output name and has nothing else to give.
    assert_eq!(
        json(&screen("DP-4"), None),
        r#"{"name":"DP-4","type":"screen"}"#
    );
}

#[test]
fn a_json_line_survives_whatever_an_application_puts_in_its_title() {
    // Titles are the application's to write. One object on one line, whatever it holds — which
    // is the whole reason this is JSON and not a field separator.
    let out = json(&window("ext-1", "firefox", "a\"b\nc\\d"), None);
    assert_eq!(out.lines().count(), 1);
    assert_eq!(
        serde_json::from_str::<serde_json::Value>(&out).unwrap()["title"],
        "a\"b\nc\\d"
    );
}

#[test]
fn the_portal_line_is_what_a_plain_run_still_prints() {
    // xdg-desktop-portal-wlr runs the chooser with no argument and reads this; a new flag must
    // not move it.
    assert_eq!(window("ext-7", "foot", "vim").token, "Window: ext-7");
    assert_eq!(screen("DP-4").token, "Monitor: DP-4");
    assert_eq!(
        chooser::answer(&window("ext-7", "foot", "vim"), Format::Portal, None),
        "Window: ext-7"
    );
}

#[test]
fn the_process_is_the_picked_windows() {
    let answer = vec![("ext-6".to_string(), 1), ("ext-7".to_string(), 4242)];
    assert_eq!(window_pid(&window("ext-7", "foot", "vim"), Some(&answer)), Some(4242));
    assert_eq!(window_pid(&window("ext-8", "foot", "vim"), Some(&answer)), None);
    assert_eq!(window_pid(&screen("DP-4"), Some(&answer)), None);
    assert_eq!(window_pid(&window("ext-7", "foot", "vim"), None), None);
}

#[test]
fn the_json_line_reads_back() {
    let line = json(&window("ext-1", "firefox", "a\"b\nc\\d"), Some(7));
    let read = read(line.as_bytes()).unwrap();
    assert_eq!(read.get("title").unwrap().as_str(), Some("a\"b\nc\\d"));
    assert_eq!(read.get("pid").unwrap().as_u64(), Some(7));
    assert!(read.get("name").is_none());
}
