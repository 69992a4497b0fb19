//! Which window has the focus, and in what order they had it.

use wlr_capture::focus::{
    cosmic_active, cosmic_is_activated, cosmic_rect, detect, hypr_active_window_rect,
    hypr_focus_order, hypr_focused_output, hyprland_active_window_rect, hyprland_focus_order,
    hyprland_focused_output, niri_focus_order, niri_focused_output, niri_order, niri_output,
    sway_active_window_rect, sway_focus_order, sway_focused_output, sway_window_at, Compositor,
    CosmicWindow, FocusOrder, Ran, Rect, SwayNode,
};
use wlr_capture::json::{read, Json};
use wlr_capture::region::Region;

fn parsed(text: &str) -> Json {
    read(text.as_bytes()).unwrap()
}

// A trimmed but faithful `hyprctl -j monitors` sample (two monitors, the second focused) —
// locks the field names (`focused`, `name`) the parser relies on.
const HYPR_MONITORS: &str = r#"[
    {"id":0,"name":"DP-1","make":"Dell","model":"X","width":2560,"height":1440,
     "x":0,"y":0,"refreshRate":59.95,"scale":1.0,"focused":false},
    {"id":1,"name":"HDMI-A-1","make":"LG","model":"Y","width":1920,"height":1080,
     "x":2560,"y":0,"refreshRate":60.0,"scale":1.0,"focused":true}
]"#;

// `hyprctl -j activewindow` gives `at`/`size` pairs in global logical coords.
const HYPR_ACTIVEWINDOW: &str =
    r#"{"address":"0x55","class":"foot","title":"foot","at":[120,340],"size":[800,600]}"#;

// A trimmed `hyprctl -j clients`, from a Hyprland 0.56.2 run where five windows were focused
// in the order A, C, B, D, B — so `focusHistoryID` ranks them B, D, C, A, then the one opened
// last and never focused again. The array is in creation order, not rank order, and the last
// two windows here share an app id and a title: only `stableId` tells them apart.
const HYPR_CLIENTS: &str = r#"[
    {"address":"0x557fa45bb650","class":"foot","title":"WIN-A","mapped":true,
     "focusHistoryID":3,"stableId":"18000002"},
    {"address":"0x557fa6decc90","class":"foot","title":"WIN-B","mapped":true,
     "focusHistoryID":0,"stableId":"18000003"},
    {"address":"0x557fa70d91b0","class":"foot","title":"WIN-C","mapped":true,
     "focusHistoryID":2,"stableId":"18000004"},
    {"address":"0x557fa6e6efc0","class":"foot","title":"twin","mapped":true,
     "focusHistoryID":1,"stableId":"18000005"},
    {"address":"0x557fa739a510","class":"foot","title":"twin","mapped":true,
     "focusHistoryID":4,"stableId":"18000006"}
]"#;

// The `activewindow` that goes with `HYPR_CLIENTS`: the head of the history.
const HYPR_ACTIVE_OF_CLIENTS: &str = r#"{"address":"0x557fa6decc90","class":"foot","title":"WIN-B","at":[646,21],
        "size":[613,333]}"#;

// A trimmed `niri msg --json windows`, from a niri 26.04 run with the same focus sequence: B
// focused, then D, C, A by `focus_timestamp`, and E last. The array order is niri's own and
// matches neither creation nor focus order.
const NIRI_WINDOWS: &str = r#"[
    {"id":5,"title":"WIN-D","app_id":"foot","is_focused":false,
     "focus_timestamp":{"secs":352,"nanos":526156848}},
    {"id":6,"title":"WIN-E","app_id":"foot","is_focused":false,
     "focus_timestamp":{"secs":346,"nanos":526223482}},
    {"id":2,"title":"WIN-A","app_id":"foot","is_focused":false,
     "focus_timestamp":{"secs":349,"nanos":732056369}},
    {"id":4,"title":"WIN-C","app_id":"foot","is_focused":false,
     "focus_timestamp":{"secs":350,"nanos":660808585}},
    {"id":3,"title":"WIN-B","app_id":"foot","is_focused":true,
     "focus_timestamp":{"secs":353,"nanos":459040460}}
]"#;

fn rect(x: i32, y: i32, width: i32, height: i32) -> Rect {
    Rect { x, y, width, height }
}

/// A node with nothing on it.
fn node() -> SwayNode {
    SwayNode {
        id: 0,
        name: None,
        is_container: true,
        app_id: None,
        window_properties: None,
        rect: rect(0, 0, 0, 0),
        window_rect: rect(0, 0, 0, 0),
        visible: None,
        focused: false,
        focus: vec![],
        foreign_toplevel_identifier: None,
        nodes: vec![],
        floating_nodes: vec![],
    }
}

/// A trimmed sway tree: one output with a visible workspace and a hidden one.
fn sway_tree() -> SwayNode {
    let screen = rect(0, 0, 3840, 1440);
    let foot = SwayNode {
        id: 12,
        app_id: Some("foot".into()),
        name: Some("term".into()),
        visible: Some(true),
        foreign_toplevel_identifier: Some("ext-foot".into()),
        rect: rect(1000, 100, 800, 600),
        ..node()
    };
    let firefox = SwayNode {
        id: 11,
        app_id: Some("firefox".into()),
        name: Some("Page Title".into()),
        visible: Some(true),
        focused: true,
        foreign_toplevel_identifier: Some("ext-firefox".into()),
        rect: rect(100, 100, 800, 600),
        // A 20px title bar, so the content rect is not the node's.
        window_rect: rect(0, 20, 800, 580),
        ..node()
    };
    let vim = SwayNode {
        app_id: Some("vim".into()),
        name: Some("editor".into()),
        visible: Some(false),
        foreign_toplevel_identifier: Some("ext-vim".into()),
        // Covers the same coordinates as firefox — sway keeps the geometry of a window even
        // while its workspace is off screen.
        rect: rect(100, 100, 800, 600),
        ..node()
    };
    let one = SwayNode {
        is_container: false,
        name: Some("1".into()),
        visible: Some(true),
        rect: screen,
        // Firefox was focused more recently, against the tree's order.
        focus: vec![11, 12],
        nodes: vec![foot, firefox],
        ..node()
    };
    let two = SwayNode {
        is_container: false,
        name: Some("2".into()),
        visible: Some(false),
        rect: screen,
        nodes: vec![vim],
        ..node()
    };
    let output = SwayNode {
        is_container: false,
        name: Some("DP-4".into()),
        rect: screen,
        nodes: vec![one, two],
        ..node()
    };
    SwayNode { is_container: false, rect: screen, nodes: vec![output], ..node() }
}

#[test]
fn sway_window_at_finds_visible_window_and_content_rect() {
    let v = sway_tree();
    let w = sway_window_at(&v, 200, 200).expect("window under the point");
    // The visible window wins, never the one on the hidden workspace.
    assert_eq!(w.app_id, "firefox");
    assert_eq!(w.title, "Page Title");
    // Content rect = node rect shifted by the 20px title bar.
    assert_eq!(w.rect, Region { x: 100, y: 120, w: 800, h: 580 });
    // A point on the empty desktop hits no window.
    assert!(sway_window_at(&v, 2000, 1300).is_none());
}

#[test]
fn sway_focus_order_follows_focus_arrays() {
    let tree = sway_tree();
    let order = sway_focus_order(&tree);
    assert_eq!(order.focused.as_deref(), Some("ext-firefox"));
    assert_eq!(order.unfocused, ["ext-foot", "ext-vim"]);

    // Workspace 2 alone: its window is ranked, but not focused.
    let order = sway_focus_order(&tree.nodes[0].nodes[1]);
    assert_eq!(order.focused, None);
    assert_eq!(order.unfocused, ["ext-vim"]);
}

#[test]
fn hypr_focused_output_picks_focused_monitor() {
    let v = parsed(HYPR_MONITORS);
    assert_eq!(hypr_focused_output(&v).as_deref(), Some("HDMI-A-1"));
}

#[test]
fn hypr_active_window_rect_reads_at_and_size() {
    let v = parsed(HYPR_ACTIVEWINDOW);
    assert_eq!(
        hypr_active_window_rect(&v),
        Some(Region { x: 120, y: 340, w: 800, h: 600 })
    );
}

#[test]
fn hypr_no_active_window_is_none() {
    // Hyprland returns `{}` when nothing is focused.
    let v = parsed("{}");
    assert!(hypr_active_window_rect(&v).is_none());
}

#[test]
fn hypr_focus_order_follows_focus_history_ids() {
    let clients = parsed(HYPR_CLIENTS);
    let active = parsed(HYPR_ACTIVE_OF_CLIENTS);
    let order = hypr_focus_order(&clients, &active).expect("an array of clients");
    assert_eq!(order.focused.as_deref(), Some("18000003"));
    assert_eq!(
        order.unfocused,
        ["18000005", "18000004", "18000002", "18000006"]
    );
}

#[test]
fn hypr_focus_order_without_an_active_window_ranks_but_does_not_focus() {
    let clients = parsed(HYPR_CLIENTS);
    // Hyprland returns `{}` when nothing is focused, while the history still ranks every
    // window.
    let order = hypr_focus_order(&clients, &parsed("{}")).expect("an array of clients");
    assert_eq!(order.focused, None);
    assert_eq!(
        order.unfocused,
        ["18000003", "18000005", "18000004", "18000002", "18000006"]
    );
    // No windows at all: an empty order, not a failure.
    let empty = hypr_focus_order(&parsed("[]"), &parsed("{}")).expect("an array of clients");
    assert_eq!(empty.focused, None);
    assert!(empty.unfocused.is_empty());
    // Anything that is not an array is a failure, though.
    assert!(hypr_focus_order(&parsed("{}"), &parsed("{}")).is_none());
}

#[test]
fn niri_focus_order_sorts_by_focus_timestamp() {
    let windows = parsed(NIRI_WINDOWS);
    let order = niri_focus_order(&windows).expect("an array of windows");
    assert_eq!(order.focused.as_deref(), Some("3"));
    assert_eq!(order.unfocused, ["5", "4", "2", "6"]);
}

#[test]
fn niri_focus_order_puts_never_focused_windows_last() {
    // `focus_timestamp` is absent for a window never focused since the compositor started,
    // and `is_focused` can be false for every window. Same second, later nanos: the pair has
    // to be compared as a pair.
    let windows = parsed(
        r#"[
        {"id": 7, "title": "fresh", "app_id": "foot", "is_focused": false},
        {"id": 8, "title": "old", "app_id": "foot", "is_focused": false,
         "focus_timestamp": {"secs": 12, "nanos": 5}},
        {"id": 9, "title": "newer", "app_id": "foot", "is_focused": false,
         "focus_timestamp": {"secs": 12, "nanos": 900}}
    ]"#,
    );
    let order = niri_focus_order(&windows).expect("an array of windows");
    assert_eq!(order.focused, None);
    assert_eq!(order.unfocused, ["9", "8", "7"]);
}

const MAXIMIZED: u32 = 0;
const MINIMIZED: u32 = 1;
const ACTIVATED: u32 = 2;
const FULLSCREEN: u32 = 3;

/// A `zcosmic_toplevel_handle_v1.state` array, as the wire carries it: 32-bit enum values in
/// host byte order.
fn cosmic_states(states: &[u32]) -> Vec<u8> {
    states.iter().flat_map(|s| s.to_ne_bytes()).collect()
}

/// The five windows of a cosmic-comp 1.8.0 run (foot, cascaded by the floating layout), the
/// last of them focused. Only one window is ever `activated`, and the four others carry an
/// empty state array — which is not the same as never having been described.
fn cosmic_windows() -> Vec<CosmicWindow> {
    let mut windows: Vec<CosmicWindow> = [(292, 100), (340, 148), (244, 196), (292, 244)]
        .into_iter()
        .map(|(x, y)| CosmicWindow {
            activated: false,
            described: true,
            outputs: vec!["WINIT-0".to_string()],
            rect: Some(cosmic_rect(x, y, 696, 532)),
        })
        .collect();
    windows.push(CosmicWindow {
        activated: true,
        described: true,
        outputs: vec!["WINIT-0".to_string()],
        rect: Some(cosmic_rect(196, 292, 696, 492)),
    });
    windows
}

#[test]
fn cosmic_is_activated_reads_the_state_array() {
    assert!(cosmic_is_activated(&cosmic_states(&[MAXIMIZED, ACTIVATED])));
    // `maximized` is 0 and `activated` is 2: a state array must not be read as a bitfield.
    assert!(!cosmic_is_activated(&cosmic_states(&[
        MAXIMIZED, MINIMIZED, FULLSCREEN
    ])));
    // No state at all — every window but the focused one, on cosmic-comp.
    assert!(!cosmic_is_activated(&[]));
    // A truncated array is ignored rather than read across its end.
    assert!(!cosmic_is_activated(&[2, 0, 0]));
}

#[test]
fn cosmic_active_picks_the_activated_window() {
    let windows = cosmic_windows();
    let active = cosmic_active(&windows).expect("one window is activated");
    assert_eq!(active.outputs.first().map(String::as_str), Some("WINIT-0"));
    assert_eq!(
        active.rect,
        Some(Region { x: 196, y: 292, w: 696, h: 492 })
    );

    // Nothing focused — under a layer-shell keyboard grab, for instance.
    let mut none = cosmic_windows();
    for w in &mut none {
        w.activated = false;
    }
    assert!(cosmic_active(&none).is_none());
    assert!(cosmic_active(&[]).is_none());
}

#[test]
fn cosmic_rect_clamps_a_negative_size() {
    // x/y may be negative (an output left of the origin); a size cannot.
    assert_eq!(
        cosmic_rect(-100, -50, 800, 600),
        Region { x: -100, y: -50, w: 800, h: 600 }
    );
    assert_eq!(cosmic_rect(0, 0, -1, -1), Region { x: 0, y: 0, w: 0, h: 0 });
}

#[test]
fn niri_focused_output_reads_name() {
    let v = parsed(
        r#"{"name":"eDP-1","make":"BOE","model":"Z",
            "logical":{"x":0,"y":0,"width":1920,"height":1080,"scale":1.0}}"#,
    );
    assert_eq!(niri_focused_output(&v).as_deref(), Some("eDP-1"));
    // `null` (no focused output) → None.
    assert!(niri_focused_output(&Json::Null).is_none());
}

#[test]
fn the_focused_window_leads_the_history() {
    let order = FocusOrder {
        focused: Some("a".into()),
        unfocused: vec!["b".into(), "c".into()],
    };
    assert_eq!(order.windows(), ["a", "b", "c"]);
    let none = FocusOrder { focused: None, unfocused: vec!["b".into()] };
    assert_eq!(none.windows(), ["b"]);
}

#[test]
fn sway_names_the_focused_window_and_output() {
    let tree = sway_tree();
    assert_eq!(
        sway_active_window_rect(&tree),
        Some(Region { x: 100, y: 100, w: 800, h: 600 })
    );
    let outputs = vec![("DP-1".to_string(), false), ("DP-2".to_string(), true)];
    assert_eq!(sway_focused_output(&outputs).as_deref(), Some("DP-2"));
    assert_eq!(detect(true, true, false, false), Some(Compositor::Sway));
    assert_eq!(detect(false, false, false, false), None);
}

fn ran(success: bool, text: &str) -> Option<Ran> {
    Some(Ran { success, stdout: text.as_bytes().to_vec() })
}

#[test]
fn an_answer_is_read_from_what_the_command_printed() {
    assert_eq!(hyprland_focused_output(ran(true, HYPR_MONITORS)).as_deref(), Some("HDMI-A-1"));
    assert!(hyprland_focused_output(ran(false, HYPR_MONITORS)).is_none());
    assert!(hyprland_focused_output(ran(true, "not json")).is_none());
    assert!(hyprland_focused_output(None).is_none());
    assert_eq!(
        hyprland_active_window_rect(ran(true, HYPR_ACTIVEWINDOW)),
        Some(Region { x: 120, y: 340, w: 800, h: 600 })
    );
    // A missing active window only costs the focused one.
    let order = hyprland_focus_order(ran(true, HYPR_CLIENTS), None).unwrap();
    assert!(order.focused.is_none() && !order.unfocused.is_empty());
    assert!(hyprland_focus_order(None, ran(true, "{}")).is_none());
    assert_eq!(niri_output(ran(true, r#"{"name":"DP-1"}"#)).as_deref(), Some("DP-1"));
    assert!(niri_output(ran(true, "null")).is_none());
    assert!(niri_order(ran(true, NIRI_WINDOWS)).is_some());
    assert!(niri_order(ran(true, "{}")).is_none());
}

#[test]
fn a_document_is_read_value_by_value() {
    let j = parsed(r#"{"a":[1,-2,3.5,18446744073709551615,true,null,"x"],"b":{"c":7}}"#);
    let a = j.get("a").unwrap().as_array().unwrap();
    assert_eq!((a[0].as_u64(), a[0].as_i64()), (Some(1), Some(1)));
    assert_eq!((a[1].as_u64(), a[1].as_i64()), (None, Some(-2)));
    assert_eq!((a[2].as_u64(), a[2].as_i64()), (None, None));
    assert_eq!((a[3].as_u64(), a[3].as_i64()), (Some(u64::MAX), None));
    assert_eq!(a[4].as_bool(), Some(true));
    assert!(matches!(a[5], Json::Null));
    assert_eq!(a[6].as_str(), Some("x"));
    assert_eq!(j.get("b").unwrap().get("c").unwrap().as_u64(), Some(7));
    assert!(j.get("z").is_none() && a[0].get("a").is_none());
    assert!(read(b"{").is_none());
}
