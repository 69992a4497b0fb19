//! The environment and capability report.

use wlr_capture::doctor::{
    capture_verdict, compositor, detected_name, gpu_probe, header, parse_pretty_name, redact_home,
    report, self_reported_version, version_command, GpuProbe,
};
use wlr_capture::version::version_from_describe;
use wlr_capture::wl::Protocol;

#[test]
fn redact_home_replaces_the_home_dir_with_tilde() {
    // $HOME prefix → `~`, keeping the install-hint tail.
    assert_eq!(
        redact_home("/home/bob/.cargo/bin/wlr-peek", Some("/home/bob")),
        "~/.cargo/bin/wlr-peek"
    );
    // A non-`/home` $HOME works just as well (that's the point of not hard-coding it).
    assert_eq!(
        redact_home("/root/.cargo/bin/wlr-peek", Some("/root")),
        "~/.cargo/bin/wlr-peek"
    );
    // Exactly $HOME.
    assert_eq!(redact_home("/home/bob", Some("/home/bob")), "~");
    // A prefix that isn't a path boundary must not match (bob vs bobby) — untouched.
    assert_eq!(
        redact_home("/home/bobby/x", Some("/home/bob")),
        "/home/bobby/x"
    );
    // No $HOME known, or a path outside it → left untouched.
    assert_eq!(redact_home("/home/alice/x", None), "/home/alice/x");
    assert_eq!(
        redact_home("/usr/bin/wlr-draw", Some("/home/bob")),
        "/usr/bin/wlr-draw"
    );
}

#[test]
fn parse_pretty_name_reads_the_quoted_value() {
    let sample = "NAME=\"Debian GNU/Linux\"\n\
                  PRETTY_NAME=\"Debian GNU/Linux 13 (trixie)\"\n\
                  VERSION_ID=\"13\"\n";
    assert_eq!(
        parse_pretty_name(sample).as_deref(),
        Some("Debian GNU/Linux 13 (trixie)")
    );
    assert_eq!(parse_pretty_name("ID=arch\n"), None);
}

fn globals(names: &[&str]) -> Vec<(String, u32)> {
    names.iter().map(|n| ((*n).to_string(), 1)).collect()
}

#[test]
fn capture_verdict_reads_screen_and_window_floors() {
    const CORE: [&str; 2] = [
        "ext_image_copy_capture_manager_v1",
        "ext_output_image_capture_source_manager_v1",
    ];
    const FOREIGN: &str = "ext_foreign_toplevel_image_capture_source_manager_v1";
    const SCREENCOPY: &str = "zwlr_screencopy_manager_v1";

    // Nothing advertised → neither capture path works.
    assert_eq!(capture_verdict(&globals(&[]), false), (None, false));
    // Core copy-capture + output source → screen only (wlroots 0.19 / Sway 1.11).
    assert_eq!(
        capture_verdict(&globals(&CORE), false),
        (Some(Protocol::ImageCopyCapture), false)
    );
    // Add the foreign-toplevel source → window capture too (0.20 / 1.12).
    let mut all = CORE.to_vec();
    all.push(FOREIGN);
    assert_eq!(
        capture_verdict(&globals(&all), false),
        (Some(Protocol::ImageCopyCapture), true)
    );
    // Only one of the two core managers → no ext path.
    assert_eq!(capture_verdict(&globals(&CORE[..1]), false), (None, false));
    // The screen and window verdicts are independent, as the report prints them.
    assert_eq!(capture_verdict(&globals(&[FOREIGN]), false), (None, true));
    // Screencopy alone → screen capture through the older protocol.
    assert_eq!(
        capture_verdict(&globals(&[SCREENCOPY]), false),
        (Some(Protocol::Screencopy), false)
    );
}

#[test]
fn the_report_tells_every_capability_and_the_verdicts() {
    let g = vec![
        ("zwlr_screencopy_manager_v1".to_string(), 3),
        ("zwp_linux_dmabuf_v1".to_string(), 4),
    ];
    let lines = report(&g, false, "working", Some("sway"));
    assert_eq!(lines.len(), 2 + 11 + 3 + 1 + 1);
    assert_eq!(lines[0], "Compositor capabilities (advertised Wayland globals):");
    assert_eq!(lines[2], "  ✗ ext_image_copy_capture_manager_v1 — capture frames (core)");
    assert_eq!(
        lines[6],
        "  ✓ zwlr_screencopy_manager_v1 (v3) — capture an output, older protocol (fallback)"
    );
    assert_eq!(
        lines[14],
        "Screen capture: supported via zwlr-screencopy-v1 (screenshots, recording, loupe, colour picker, wlr-draw)."
    );
    assert!(lines[15].starts_with("Window capture: UNSUPPORTED"));
    assert_eq!(lines[16], "GPU capture: working");
    assert_eq!(lines[17], "Focus IPC: sway detected (-a / --current-output work).");
    // With nothing to capture by, the GPU is not told of.
    let none = report(&[], false, "working", None);
    assert_eq!(none.len(), 2 + 11 + 3 + 1);
    assert!(none[14].contains("neither is advertised"));
    assert_eq!(none[16], "Focus IPC: none detected (-a / --current-output unavailable).");
}

#[test]
fn the_header_names_what_is_known() {
    assert_eq!(
        header("wlr-chooser", "1.9.0", Some("Debian"), "sway", Some("~/x")),
        ["wlr-chooser 1.9.0", "", "  OS:         Debian", "  Compositor: sway", "  Executable: ~/x", ""]
    );
    assert_eq!(
        header("t", "v", None, "c", None),
        ["t v", "", "  Compositor: c", ""]
    );
}

#[test]
fn the_compositor_is_named_and_asked_for_its_version() {
    assert_eq!(detected_name(Some("sway"), Some("KDE"), None), Some("sway"));
    assert_eq!(detected_name(None, None, Some("niri")), Some("niri"));
    assert_eq!(detected_name(None, Some(""), Some("niri")), None);
    assert_eq!(version_command("SwayFX"), Some(("sway", "--version")));
    assert_eq!(version_command("Hyprland"), Some(("hyprctl", "version")));
    assert_eq!(version_command("niri"), Some(("niri", "--version")));
    assert_eq!(version_command("COSMIC"), Some(("cosmic-comp", "--version")));
    assert_eq!(version_command("KDE"), None);
    assert_eq!(self_reported_version("\n  \r\n sway 1.11 \nmore"), Some("sway 1.11".to_string()));
    assert_eq!(self_reported_version(" \n"), None);
    assert_eq!(compositor(Some("sway"), Some("sway 1.11")), "sway — sway 1.11");
    assert_eq!(compositor(Some("sway"), None), "sway");
    assert_eq!(compositor(None, None), "unknown (XDG_CURRENT_DESKTOP unset or unrecognised)");
}

#[test]
fn a_probe_tells_the_layout_that_was_negotiated() {
    let working = GpuProbe::Working { fourcc: 0x34325258, modifier: 0x0100_0000_0000_0004, planes: 2 };
    assert_eq!(
        gpu_probe(&working),
        "working — fourcc 0x34325258, modifier 0x0100000000000004, 2 plane(s)"
    );
    let broken = GpuProbe::Broken { fourcc: 1, modifier: 0, planes: 1, reason: "no".into() };
    assert_eq!(
        gpu_probe(&broken),
        "BROKEN — fourcc 0x00000001, modifier 0x0000000000000000, 1 plane(s): no. Captures still work (they fall back to shm); please report this with the line above."
    );
    assert_eq!(gpu_probe(&GpuProbe::Unreachable("x".into())), "could not probe (x)");
    assert_eq!(gpu_probe(&GpuProbe::Failed("x".into())), "probe capture failed (x)");
    assert_eq!(gpu_probe(&GpuProbe::NoOutput), "no output to probe");
    assert_eq!(gpu_probe(&GpuProbe::NotBuiltIn), "not built in (shm capture only)");
    assert_eq!(
        gpu_probe(&GpuProbe::Shm),
        "not used (no dma-buf format negotiated); capturing through shm"
    );
}

#[test]
fn a_version_comes_from_a_tag_or_a_bare_hash() {
    assert_eq!(version_from_describe("v1.9.0-17-g7a434c1", "1.9.0"), "1.9.0-17-g7a434c1");
    assert_eq!(version_from_describe("7a434c1", "1.9.0"), "1.9.0-g7a434c1");
}
