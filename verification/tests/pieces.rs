//! Themes, connections, the clipboard, the pointer, tables and texts.

use wlr_capture::bytes::{device_number, order_of, words32, ByteOrder};
use wlr_capture::clipboard::ClipState;
use wlr_capture::connect::{
    connect, gpu_disabled, output_version, render_node_for, render_nodes, sysfs_dir,
    sysfs_render_node,
};
use wlr_capture::layout::View;
use wlr_capture::pointer::{Pointer, Sent, SHAPE_DEFAULT};
use wlr_capture::table::Table;
use wlr_capture::theme::{config_path, parse_hex, Raw, Rgba, Theme};
use wlr_capture::ui::{
    app_icon, card_columns, card_size, fill, name_badge, preview, strip_icon, tile_name, Badge,
    Drawn, Fill, Live, Pictures, Placeholder, Preview, Upload,
};

fn rgba(r: u8, g: u8, b: u8, a: u8) -> Rgba {
    Rgba { r, g, b, a }
}

#[test]
fn colours_are_read_in_three_lengths() {
    assert_eq!(parse_hex("#89b4fa"), Some(rgba(0x89, 0xb4, 0xfa, 255)));
    assert_eq!(parse_hex(" #89B4FA80 "), Some(rgba(0x89, 0xb4, 0xfa, 0x80)));
    assert_eq!(parse_hex("#1af"), Some(rgba(0x11, 0xaa, 0xff, 255)));
    assert_eq!(parse_hex("89b4fa"), None);
    assert_eq!(parse_hex("#12345"), None);
    assert_eq!(parse_hex("#gggggg"), None);
    assert_eq!(parse_hex("#+1+2+3"), None);
    assert_eq!(parse_hex("#1é2"), None);
}

fn silent() -> Raw {
    Raw {
        backdrop: None,
        bg: None,
        card: None,
        tile: None,
        tile_hover: None,
        tile_selected: None,
        thumb: None,
        text: None,
        text_dim: None,
        accent: None,
        screen_accent: None,
        window_accent: None,
        font: None,
        font_path: None,
        cjk_font: None,
    }
}

#[test]
fn a_configuration_overrides_what_it_writes_well() {
    let t = Theme::load(None);
    assert_eq!(t.backdrop, rgba(0, 0, 0, 140));
    let t = Theme::load(Some(Raw {
        accent: Some("#89b4fa".into()),
        text: Some("blue".into()),
        cjk_font: Some("Mine".into()),
        ..silent()
    }));
    assert_eq!(t.accent, rgba(0x89, 0xb4, 0xfa, 255));
    assert_eq!(t.text, rgba(0xd8, 0xde, 0xe9, 255));
    assert_eq!(t.cjk_candidates()[..2], ["Mine", "Noto Sans CJK JP"]);
    assert_eq!(Theme::default().cjk_candidates().len(), 6);
    assert_eq!(
        config_path(None, Some("/home/bob")).as_deref(),
        Some("/home/bob/.config/wlr-chooser/theme.toml")
    );
    assert_eq!(
        config_path(Some("/cfg"), Some("/home/bob")).as_deref(),
        Some("/cfg/wlr-chooser/theme.toml")
    );
    assert_eq!(config_path(None, None), None);
}

fn globals(list: &[(&str, u32)]) -> Vec<(String, u32)> {
    list.iter().map(|(n, v)| (n.to_string(), *v)).collect()
}

#[test]
fn a_connection_binds_what_is_there() {
    let ext = [
        ("ext_image_copy_capture_manager_v1", 1),
        ("ext_output_image_capture_source_manager_v1", 1),
        ("ext_foreign_toplevel_image_capture_source_manager_v1", 1),
        ("ext_foreign_toplevel_list_v1", 1),
        ("zwp_linux_dmabuf_v1", 4),
    ];
    let b = connect(&globals(&ext), false).unwrap();
    assert!(b.can_capture_windows() && b.dmabuf && !b.feedback && !b.xdg_output);
    let old = [("zwlr_screencopy_manager_v1", 3), ("zwp_linux_dmabuf_v1", 4), ext[2], ext[3]];
    let b = connect(&globals(&old), false).unwrap();
    assert!(!b.can_capture_windows() && b.feedback);
    let too_old = [("zwlr_screencopy_manager_v1", 2)];
    let refused = connect(&globals(&too_old), false).unwrap_err();
    assert_eq!(refused.to_string(), "zwlr_screencopy_manager_v1 v3");
    assert_eq!(
        refused.source().map(String::as_str),
        Some("the requested version of the global is not supported")
    );
    // The first global of a name is the one that is bound.
    let twice = [("zwlr_screencopy_manager_v1", 2), ("zwlr_screencopy_manager_v1", 3)];
    assert!(connect(&globals(&twice), false).is_err());
    let back = [twice[1], twice[0], ("zwp_linux_dmabuf_v1", 3), ("zwp_linux_dmabuf_v1", 4)];
    let b = connect(&globals(&back), false).unwrap();
    assert!(b.dmabuf && !b.feedback);
    let nameless = [(ext[0].0, 0), ext[1]];
    let refused = connect(&globals(&nameless), false).unwrap_err();
    assert_eq!(refused.to_string(), "ext_image_copy_capture_manager_v1");
    assert_eq!(
        connect(&[], false).unwrap_err().to_string(),
        "no capture protocol: neither ext_image_copy_capture_manager_v1 + ext_output_image_capture_source_manager_v1 nor zwlr_screencopy_manager_v1"
    );
    assert_eq!((output_version(3), output_version(9)), (3, 4));
    assert!(gpu_disabled(false, true) && !gpu_disabled(false, false));
}

#[test]
fn buffers_are_allocated_on_the_compositors_gpu() {
    let names: Vec<String> =
        ["renderD129", "card0", "renderD128"].iter().map(|s| s.to_string()).collect();
    let nodes = render_nodes(&names);
    assert_eq!(nodes, ["/dev/dri/renderD128", "/dev/dri/renderD129"]);
    let devices = vec![Some(10), Some(11)];
    assert_eq!(render_node_for(&nodes, &devices, Some(11), None), nodes[1]);
    assert_eq!(
        render_node_for(&nodes, &devices, Some(12), Some("/dev/dri/renderD130".into())),
        "/dev/dri/renderD130"
    );
    assert_eq!(render_node_for(&nodes, &devices, Some(12), None), nodes[0]);
    assert_eq!(render_node_for(&nodes, &devices, None, None), nodes[0]);
    assert_eq!(render_node_for(&vec![], &vec![], None, None), "/dev/dri/renderD128");
    assert_eq!(sysfs_render_node(&names).as_deref(), Some("/dev/dri/renderD129"));
    // Device 226:128, as the kernel packs it.
    assert_eq!(sysfs_dir(226 * 256 + 128), "/sys/dev/char/226:128/device/drm");
}

#[test]
fn a_selection_answers_its_own_type() {
    let mut c = ClipState::new("image/png".into(), vec![1, 2]);
    assert_eq!(c.send("image/png"), Some(&vec![1, 2]));
    assert_eq!(c.send("text/plain"), None);
    assert!(!c.done);
    c.cancelled();
    assert!(c.done);
}

#[test]
fn the_cursor_image_is_sent_on_every_enter() {
    let mut p = Pointer::new();
    assert_eq!(p.on_enter(1), None);
    p.create(true);
    assert_eq!(p.on_enter(2), Some(Sent { serial: 2, shape: SHAPE_DEFAULT }));
    assert_eq!(p.set_cursor(8), Some(Sent { serial: 2, shape: 8 }));
    assert_eq!(p.set_cursor(8), None);
    p.on_leave();
    assert_eq!(p.set_cursor(9), None);
    assert_eq!(p.on_enter(3), Some(Sent { serial: 3, shape: 9 }));
}

#[test]
fn a_table_holds_each_name_once() {
    let mut t: Table<u32> = Table::new();
    t.insert("a".into(), 1);
    t.insert("b".into(), 2);
    t.insert("a".into(), 3);
    assert_eq!(t.entries.len(), 2);
    assert_eq!(t.get("a"), Some(&3));
    assert_eq!(t.position("b"), Some(1));
    assert_eq!(t.remove("a"), Some(3));
    assert_eq!(t.remove("a"), None);
    assert!(!t.contains("a") && t.contains("b"));
}

#[test]
fn numbers_on_the_wire_are_read_in_either_order() {
    assert_eq!(order_of([1, 0, 0, 0]), ByteOrder::Little);
    assert_eq!(order_of([0, 0, 0, 1]), ByteOrder::Big);
    assert_eq!(words32(&[1, 0, 0, 0, 9], ByteOrder::Little), vec![1]);
    assert_eq!(words32(&[0, 0, 0, 1], ByteOrder::Big), vec![1]);
    assert_eq!(device_number(&[1, 0, 0, 0, 0, 0, 0, 0], ByteOrder::Little), Some(1));
    assert_eq!(device_number(&[1, 0, 0], ByteOrder::Little), None);
}

fn source(key: &str, is_window: bool, subtitle: &str) -> wlr_capture::sources::Source {
    wlr_capture::sources::Source {
        key: key.into(),
        token: String::new(),
        title: "title".into(),
        subtitle: subtitle.into(),
        filter: String::new(),
        is_window,
        is_system: false,
        app_id: String::new(),
        win_title: String::new(),
        output: String::new(),
        dup_index: 0,
    }
}

#[test]
fn a_tile_shows_the_best_picture_there_is() {
    let mut p = Pictures::new();
    let (w, s) = (source("w", true, "sub"), source("s", false, ""));
    assert_eq!(preview(&p, &w, View::Card), Preview::Text(Placeholder::Loading));
    assert_eq!(preview(&p, &s, View::Card), Preview::Text(Placeholder::Title));
    assert_eq!(preview(&p, &s, View::Grid), Preview::Text(Placeholder::Loading));
    assert!(p.imported("w", false));
    assert!(p.preview_failed("w"));
    assert_eq!(preview(&p, &w, View::Card), Preview::Text(Placeholder::Unavailable));
    assert_eq!(p.thumb("w", 0, 4), Upload::Nothing);
    assert_eq!(p.thumb("w", 4, 4), Upload::New);
    assert_eq!(p.thumb("w", 4, 4), Upload::Update);
    assert!(!p.preview_failed("w"));
    assert_eq!(app_icon(&p, &w), Badge::Picture(Drawn::Texture));
    assert!(!p.imported("w", true));
    assert_eq!(preview(&p, &w, View::Card), Preview::Picture(Drawn::Native));
    assert_eq!(name_badge(&p, &w, View::Card), Badge::WindowGlyph);
    assert!(p.icon("w", 1, 1));
    assert!(!p.icon("s", 0, 1));
    assert_eq!(name_badge(&p, &w, View::Card), Badge::Icon);
    assert_eq!(name_badge(&p, &s, View::Card), Badge::MonitorGlyph);
    assert_eq!(app_icon(&p, &w), Badge::Icon);
    p.forget("w");
    assert_eq!(p.thumb_tex("w"), None);
    assert_eq!(app_icon(&p, &w), Badge::WindowGlyph);
    assert_eq!(app_icon(&p, &s), Badge::MonitorGlyph);
    assert_eq!(tile_name(&w), "title — sub");
    assert_eq!(tile_name(&s), "title");
}

#[test]
fn the_layouts_are_sized_in_points() {
    assert_eq!(card_size(None), (1000, 760));
    assert_eq!(card_size(Some((4, 3))), (4 * 280 + 30 + 38, 78 + 3 * 194 + 20 + 24));
    assert_eq!(card_columns(Some((4, 3)), 10), 4);
    assert_eq!(card_columns(None, 869), 3);
    assert_eq!(card_columns(None, 5), 1);
    assert_eq!(strip_icon(3, 10_000), 96);
    assert_eq!(strip_icon(10, 1000), 56);
    assert_eq!(strip_icon(100, 1000), 44);
    assert!(Live::All.shows(1, 0) && !Live::Off.shows(0, 0) && Live::Current.shows(2, 2));
    assert_eq!((fill(true, true), fill(false, true), fill(false, false)), (Fill::Selected, Fill::Hovered, Fill::Plain));
}
