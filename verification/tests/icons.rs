//! Which icon stands for an application.

use wlr_capture::icons::{
    app_dirs, data_dirs, desktop_files, desktop_icon_in, icon_dirs, icon_file_in, load,
    load_raster, read_entry, resolve, tail, unpremultiply, DesktopFile, IconKind,
};
use wlr_capture::image::CapturedImage;

/// The desktop entries of one directory, `(name, body)`, as they are found.
fn directory(files: &[(&str, &str)]) -> Vec<DesktopFile> {
    let names: Vec<String> = files.iter().map(|(n, _)| format!("{n}.desktop")).collect();
    desktop_files(&names)
        .into_iter()
        .map(|(stem, i)| DesktopFile { stem, entry: Some(read_entry(files[i].1)) })
        .collect()
}

fn apps() -> Vec<DesktopFile> {
    directory(&[
        ("org.xfce.Thunar", "[Desktop Entry]\nIcon=org.xfce.thunar\n"),
        ("thunar-volman-settings", "[Desktop Entry]\nIcon=org.xfce.volman\n"),
        ("discord", "[Desktop Entry]\nIcon=discord\n"),
        (
            "org.example.Desk",
            "[Desktop Entry]\nIcon=desk-desktop\nStartupWMClass=org.example.Desk\n",
        ),
        ("firefox", "[Desktop Entry]\nIcon=firefox\nStartupWMClass=firefox-esr\n"),
    ])
}

#[test]
fn empty_app_id_matches_nothing() {
    let dirs = apps();
    assert_eq!(desktop_icon_in(&dirs, ""), None);
    assert_eq!(desktop_icon_in(&dirs, "   "), None);
}

#[test]
fn unknown_app_id_matches_nothing() {
    let dirs = apps();
    assert_eq!(desktop_icon_in(&dirs, "no-such-app"), None);
}

#[test]
fn app_id_matches_file_name_across_reverse_dns_prefix() {
    let dirs = apps();
    // Not `org.xfce.volman`: a longer file name containing the app-id is not a match.
    assert_eq!(
        desktop_icon_in(&dirs, "thunar").as_deref(),
        Some("org.xfce.thunar")
    );
    assert_eq!(
        desktop_icon_in(&dirs, "org.xfce.Thunar").as_deref(),
        Some("org.xfce.thunar")
    );
    assert_eq!(
        desktop_icon_in(&dirs, "org.example.Desk").as_deref(),
        Some("desk-desktop")
    );
}

#[test]
fn file_name_match_ignores_case() {
    let dirs = apps();
    assert_eq!(
        desktop_icon_in(&dirs, "DisCord").as_deref(),
        Some("discord")
    );
}

#[test]
fn startup_wm_class_matches_when_the_file_name_does_not() {
    let dirs = apps();
    assert_eq!(
        desktop_icon_in(&dirs, "firefox-esr").as_deref(),
        Some("firefox")
    );
}

#[test]
fn file_name_wins_over_startup_wm_class() {
    let dir = directory(&[
        ("aaa-impostor", "[Desktop Entry]\nIcon=impostor\nStartupWMClass=foot\n"),
        ("foot", "[Desktop Entry]\nIcon=foot\n"),
    ]);
    assert_eq!(desktop_icon_in(&dir, "foot").as_deref(), Some("foot"));
}

#[test]
fn suffixed_launcher_falls_back_to_the_base_app() {
    let dirs = apps();
    assert_eq!(
        desktop_icon_in(&dirs, "firefox-perso").as_deref(),
        Some("firefox")
    );
    // The fallback never strips down to a stub that would match anything.
    assert_eq!(desktop_icon_in(&dirs, "xy-zzy"), None);
}

#[test]
fn a_desktop_action_icon_is_not_the_app_icon() {
    let dir = directory(&[
        (
            "foot",
            "[Desktop Entry]\nName=Foot\n\n[Desktop Action New]\nIcon=foot-action\n",
        ),
        ("footclient", "[Desktop Entry]\nIcon=foot\n"),
    ]);
    // `foot.desktop` declares no app icon, so the next candidate answers.
    assert_eq!(
        desktop_icon_in(&dir, "footclient").as_deref(),
        Some("foot")
    );
}

#[test]
fn earlier_directories_win() {
    let mut both = directory(&[("steam", "[Desktop Entry]\nIcon=steam-user\n")]);
    both.extend(directory(&[("steam", "[Desktop Entry]\nIcon=steam\n")]));
    assert_eq!(
        desktop_icon_in(&both, "steam").as_deref(),
        Some("steam-user")
    );
}

#[test]
fn icon_lookup_rejects_empty_and_relative_names() {
    let files = vec!["/icons/.png".to_string(), "/icons/sub/foot.png".to_string()];
    let dirs = vec!["/icons".to_string()];
    assert_eq!(icon_file_in(&dirs, "", &files), None);
    assert_eq!(icon_file_in(&dirs, "  ", &files), None);
    assert_eq!(icon_file_in(&dirs, "sub/foot", &files), None);
}

#[test]
fn icon_lookup_takes_an_absolute_path_as_is() {
    let png = "/somewhere/elsewhere.png".to_string();
    let files = vec![png.clone()];
    let dirs = vec!["/somewhere".to_string()];
    assert_eq!(icon_file_in(&dirs, &png, &files), Some(png));
    assert_eq!(icon_file_in(&dirs, "/nope/missing.png", &files), None);
}

#[test]
fn icon_lookup_follows_directory_order() {
    let files = vec!["/t/scalable/foot.svg".to_string(), "/t/32x32/foot.png".to_string()];
    let dirs = vec!["/t/scalable".to_string(), "/t/32x32".to_string()];
    assert_eq!(
        icon_file_in(&dirs, "foot", &files).as_deref(),
        Some("/t/scalable/foot.svg")
    );
}

#[test]
fn an_app_without_an_entry_is_found_by_its_own_name() {
    let files = vec!["/t/mpv.png".to_string(), "/t/firefox.svg".to_string()];
    let dirs = vec!["/t".to_string()];
    assert_eq!(resolve("mpv", &dirs, &apps(), &files).as_deref(), Some("/t/mpv.png"));
    assert_eq!(resolve("firefox-esr", &dirs, &apps(), &files).as_deref(), Some("/t/firefox.svg"));
    assert_eq!(resolve("", &dirs, &apps(), &files), None);
    assert_eq!(tail("org.xfce.thunar"), "thunar");
}

#[test]
fn icons_are_looked_for_where_the_environment_says() {
    let bases = data_dirs(None, Some("/home/bob"), "/usr/local/share:/usr/share");
    assert_eq!(bases[0], "/home/bob/.local/share");
    assert_eq!(app_dirs(&bases)[0], "/home/bob/.local/share/applications");
    assert!(icon_dirs(&bases).len() > bases.len());
    assert_eq!(data_dirs(Some("/data"), Some("/home/bob"), "")[0], "/data");
}

#[test]
fn a_drawing_is_rendered_and_a_picture_scaled() {
    assert_eq!(load(Some("svg")), IconKind::Vector);
    assert_eq!(load(Some("png")), IconKind::Raster);
    assert_eq!(load(None), IconKind::Raster);
    let mut rgba = vec![64, 0, 128, 128, 9, 9, 9, 0, 10, 20, 30, 255];
    unpremultiply(&mut rgba);
    assert_eq!(rgba, vec![128, 0, 255, 128, 9, 9, 9, 0, 10, 20, 30, 255]);
}

#[test]
fn a_picture_is_sampled_at_the_icons_size() {
    let img = CapturedImage { width: 2, height: 2, rgba: [9u8, 8, 7, 255].repeat(4) };
    let icon = load_raster(img, 3);
    assert_eq!((icon.width, icon.height), (3, 3));
    assert_eq!(icon.rgba, [9u8, 8, 7, 255].repeat(9));
}
