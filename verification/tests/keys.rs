//! Keys as they are written, and the streams that consume frames.

use std::time::Duration;
use wlr_capture::error::{CaptureError, Result};
use wlr_capture::image::CapturedImage;
use wlr_capture::keys::{
    is_cancel, Key, KeyPress, UnknownKey, KEY_BRACKETLEFT, KEY_ESCAPE, KEY_TAB,
};
use wlr_capture::sink::{pump, pump_read, Frame, FrameSink, Pumped, Taken};
use wlr_capture::switcher::CycleKeys;

fn press(name: &str, shifted: bool) -> KeyPress {
    KeyPress { key: Key::from_name(name).unwrap(), shifted }
}

#[test]
fn a_key_press_reads_back_as_what_it_printed() {
    for k in [
        press("Tab", false),
        press("Tab", true),
        // `ArrowDown` prints as `Down`, so what comes out is not what one would most likely
        // put in.
        press("ArrowDown", false),
        press("Minus", true),
    ] {
        assert_eq!(KeyPress::parse(&k.to_string()), Ok(k));
    }
    assert_eq!(press("ArrowDown", false).to_string(), "Down");
}

#[test]
fn keys_are_read_by_name_alias_or_character() {
    assert_eq!(KeyPress::parse(" sHiFt+Tab ").unwrap(), press("Tab", true));
    assert_eq!(KeyPress::parse("j").unwrap().to_string(), "J");
    assert_eq!(KeyPress::parse("F5").unwrap().to_string(), "F5");
    assert_eq!(KeyPress::parse("Shift+"), Err(UnknownKey));
    assert_eq!(KeyPress::parse("nonsense"), Err(UnknownKey));
    assert_eq!(
        UnknownKey.to_string(),
        "unknown key (try Tab, Shift+Tab, Down, j, F5)"
    );
}

#[test]
fn cycle_keys_read_back_as_what_they_printed() {
    for s in ["Tab", "Shift+Tab", "J:K", "Shift+J:Down"] {
        let keys = CycleKeys::parse(s).unwrap();
        assert_eq!(keys.to_string(), s);
    }
    // The short form is the one written back when it says the same thing.
    assert_eq!(CycleKeys::parse("Tab:Shift+Tab").unwrap().to_string(), "Tab");
}

#[test]
fn a_key_named_with_a_colon_stays_writable() {
    let keys = CycleKeys::parse(":").unwrap();
    assert_eq!(keys.to_string(), "Colon");
    assert!(!keys.next.shifted && keys.prev.shifted);
    assert_eq!(CycleKeys::parse("Tab:"), Err(UnknownKey));
    assert_eq!(CycleKeys::parse("x y"), Err(UnknownKey));
}

#[test]
fn escape_and_its_chord_cancel() {
    assert!(is_cancel(KEY_ESCAPE, false));
    assert!(is_cancel(KEY_BRACKETLEFT, true));
    assert!(!is_cancel(KEY_BRACKETLEFT, false));
    assert!(!is_cancel(KEY_TAB, true));
}

/// A sink that records what it received. It has no use for a buffer on the GPU.
#[derive(Default)]
struct Collect {
    frames: Vec<(u32, u32, Duration)>,
    finished: bool,
}

impl FrameSink<u32, &'static str> for Collect {
    fn push(&mut self, img: &CapturedImage, ts: Duration) -> Result<()> {
        self.frames.push((img.width, img.height, ts));
        Ok(())
    }
    fn finish(&mut self) -> Result<()> {
        self.finished = true;
        Ok(())
    }
}

/// A sink that takes buffers as they are, and has nothing to finish.
#[derive(Default)]
struct Encoder {
    buffers: Vec<u32>,
}

impl FrameSink<u32, u8> for Encoder {
    fn push(&mut self, _: &CapturedImage, _: Duration) -> Result<()> {
        Err(CaptureError::msg("not from memory"))
    }
    fn push_dmabuf(&mut self, uses: &mut u8, frame: u32, _: Duration) -> Taken<u32> {
        *uses += 1;
        self.buffers.push(frame);
        Taken::Done(Ok(()))
    }
}

fn picture() -> CapturedImage {
    CapturedImage { width: 4, height: 2, rgba: vec![0; 4 * 2 * 4] }
}

#[test]
fn pump_routes_shm_frames() {
    let mut sink = Collect::default();
    let mut rb = None; // never built: no dma-buf frames in this stream
    match pump(&mut sink, &mut rb, Frame::Shm(picture()), Duration::from_millis(40)) {
        Pumped::Pushed(r) => r.unwrap(),
        _ => panic!("not pushed"),
    }
    sink.finish().unwrap();

    assert!(rb.is_none());
    assert_eq!(sink.frames, vec![(4, 2, Duration::from_millis(40))]);
    assert!(sink.finished);
}

#[test]
fn a_buffer_is_read_back_before_it_is_pushed() {
    let mut sink = Collect::default();
    let (mut rb, ts) = (None, Duration::from_millis(5));
    match pump(&mut sink, &mut rb, Frame::Dmabuf(7u32), ts) {
        Pumped::Build(buffer) => assert_eq!(buffer, 7),
        _ => panic!("no context is there"),
    }
    rb = Some("context");
    match pump(&mut sink, &mut rb, Frame::Dmabuf(7u32), ts) {
        Pumped::ReadBack(buffer) => assert_eq!(buffer, 7),
        _ => panic!("not to be read back"),
    }
    assert!(sink.frames.is_empty());
    pump_read(&mut sink, Ok(picture()), ts).unwrap();
    assert_eq!(sink.frames, vec![(4, 2, ts)]);
    let failed = CaptureError::msg("no");
    assert_eq!(pump_read(&mut sink, Err(failed), ts).unwrap_err().to_string(), "no");
    assert_eq!(sink.frames.len(), 1);
}

#[test]
fn a_sink_may_keep_the_buffer_on_the_gpu() {
    let mut sink = Encoder::default();
    let mut rb = Some(0u8);
    match pump(&mut sink, &mut rb, Frame::Dmabuf(9), Duration::ZERO) {
        Pumped::Pushed(r) => r.unwrap(),
        _ => panic!("not taken"),
    }
    assert_eq!((sink.buffers.as_slice(), rb), ([9].as_slice(), Some(1)));
    match pump(&mut sink, &mut rb, Frame::Shm(picture()), Duration::ZERO) {
        Pumped::Pushed(r) => assert_eq!(r.unwrap_err().to_string(), "not from memory"),
        _ => panic!("not refused"),
    }
    assert!(sink.finish().is_ok());
}
