//! Capture sessions from frame to frame.

use wlr_capture::image::{fourcc, ShmFormat};
use wlr_capture::session::{
    harvest, importable, main_device_after, modifier_halves, poll_one, poll_slice, Arm,
    FailureReason,
    FrameEvent, Harvest, ScreencopyEvent, SessionEvent, SessionId, SessionIds, Sessions, ShmRefusal, Waited,
};
use wlr_capture::wl::Protocol;

fn described(s: &mut Sessions, w: u32, h: u32) {
    let d = &mut s.list[0].data;
    d.on_session_event(SessionEvent::BufferSize { width: w, height: h });
    d.on_session_event(SessionEvent::ShmFormat(ShmFormat::Xrgb8888));
    d.on_session_event(SessionEvent::Done);
}

#[test]
fn a_frame_is_armed_read_and_armed_again() {
    let mut ids = SessionIds::new();
    let mut s = Sessions::new(false);
    let id = s.new_session(&mut ids, Protocol::ImageCopyCapture);
    assert_eq!(s.await_constraints(id).ok(), Some(false));
    described(&mut s, 4, 2);
    assert_eq!(s.await_constraints(id).ok(), Some(true));
    let one = &mut s.list[0];
    assert_eq!(one.arm(), Arm::Allocate { width: 4, height: 2 });
    assert_eq!(one.install(false), Arm::Capture);
    assert_eq!(one.arm(), Arm::Leave, "a frame is in flight");
    assert_eq!(one.harvest(), Harvest::Nothing);
    one.data.on_frame_event(FrameEvent::Ready);
    assert_eq!(one.harvest(), Harvest::Read { dmabuf: false, flip: false });
    one.delivered();
    assert!(one.data.delivered);
    assert_eq!(one.arm(), Arm::Capture, "the buffer is kept");
    // The source grew: the next frame comes into a new buffer.
    one.data.on_frame_event(FrameEvent::Failed(FailureReason::BufferConstraints));
    assert_eq!(one.harvest(), Harvest::Retry);
    one.data.on_session_event(SessionEvent::BufferSize { width: 8, height: 2 });
    assert_eq!(one.arm(), Arm::Allocate { width: 8, height: 2 });
    one.install(true);
    one.data.on_frame_event(FrameEvent::Failed(FailureReason::Stopped));
    assert_eq!(one.harvest(), Harvest::Stopped);
    assert_eq!(one.arm(), Arm::Leave);
}

#[test]
fn a_screencopy_frame_is_copied_into_once_it_is_described() {
    let mut ids = SessionIds::new();
    let mut s = Sessions::new(false);
    let id = s.new_session(&mut ids, Protocol::Screencopy);
    assert!(s.list[0].armed);
    assert!(!s.poll_again(true));
    let d = &mut s.list[0].data;
    d.on_screencopy_event(ScreencopyEvent::Buffer {
        format: ShmFormat::Xrgb8888,
        width: 2,
        height: 2,
        stride: 16,
    });
    d.on_screencopy_event(ScreencopyEvent::LinuxDmabuf {
        fourcc: fourcc(b'X', b'R', b'2', b'4'),
        width: 2,
        height: 2,
    });
    d.on_screencopy_event(ScreencopyEvent::BufferDone);
    assert!(s.poll_again(true) && !s.poll_again(false));
    assert_eq!(s.await_constraints(id).ok(), Some(true));
    let one = &mut s.list[0];
    assert_eq!(one.arm(), Arm::Allocate { width: 2, height: 2 });
    assert_eq!(one.install(true), Arm::Copy);
    // Bottom-up: a dma-buf cannot be turned over, and is given up.
    one.data.on_screencopy_event(ScreencopyEvent::Flags { y_invert: true });
    one.data.on_screencopy_event(ScreencopyEvent::Ready);
    assert_eq!(one.harvest(), Harvest::Discard);
    assert!(one.data.alloc_dmabuf(false, true, None).is_none());
    assert_eq!(one.arm(), Arm::StartFrame);
    one.data.on_screencopy_event(ScreencopyEvent::BufferDone);
    assert_eq!(one.arm(), Arm::Allocate { width: 2, height: 2 });
    one.install(false);
    one.data.on_screencopy_event(ScreencopyEvent::Ready);
    assert_eq!(one.harvest(), Harvest::Read { dmabuf: false, flip: true });
    one.delivered();
    one.arm();
    one.data.on_screencopy_event(ScreencopyEvent::BufferDone);
    assert_eq!(one.arm(), Arm::CopyWithDamage, "later frames wait for a change");
    one.data.on_screencopy_event(ScreencopyEvent::Failed);
    assert_eq!(one.harvest(), Harvest::Stopped);
}

#[test]
fn buffers_follow_the_constraints() {
    let mut ids = SessionIds::new();
    let mut s = Sessions::new(false);
    s.new_session(&mut ids, Protocol::ImageCopyCapture);
    let d = &mut s.list[0].data;
    assert_eq!(d.alloc_shm(), Err(ShmRefusal::NoFormat));
    d.on_session_event(SessionEvent::ShmFormat(ShmFormat::Other(7)));
    assert_eq!(d.alloc_shm(), Err(ShmRefusal::Unsupported(ShmFormat::Other(7))));
    d.on_session_event(SessionEvent::ShmFormat(ShmFormat::Xrgb8888));
    d.on_session_event(SessionEvent::BufferSize { width: 3, height: 2 });
    let plan = d.alloc_shm().unwrap();
    assert_eq!((plan.stride, plan.size), (12, 24));
    d.stride = Some(16);
    assert_eq!(d.alloc_shm().unwrap().size, 32);
    d.stride = Some(5);
    assert_eq!(d.alloc_shm().unwrap().stride, 12);
    assert!(d.alloc_dmabuf(false, true, Some(9)).is_none(), "no format named yet");
    let xr24 = fourcc(b'X', b'R', b'2', b'4');
    d.on_session_event(SessionEvent::DmabufFormat { format: xr24, modifiers: vec![5] });
    assert!(d.alloc_dmabuf(true, true, Some(9)).is_none());
    assert!(d.alloc_dmabuf(false, false, Some(9)).is_none());
    let plan = d.alloc_dmabuf(false, true, Some(9)).unwrap();
    assert_eq!((plan.fourcc, plan.modifiers, plan.device), (xr24, vec![5], Some(9)));
    d.on_session_event(SessionEvent::DmabufDevice(Some(4)));
    assert_eq!(d.alloc_dmabuf(false, true, Some(9)).unwrap().device, Some(4));
    d.one_shot = true;
    assert!(d.alloc_dmabuf(false, true, None).is_none());
}

#[test]
fn without_the_gpu_every_buffer_is_stale() {
    let mut ids = SessionIds::new();
    let mut s = Sessions::new(false);
    let a = s.new_session(&mut ids, Protocol::ImageCopyCapture);
    let b = s.new_session(&mut ids, Protocol::ImageCopyCapture);
    assert_ne!(a, b);
    s.disable_gpu();
    assert!(s.gpu_disabled && s.list.iter().all(|one| one.data.dirty));
    s.list[0].data.dirty = false;
    s.disable_gpu();
    assert!(!s.list[0].data.dirty, "it was off already");
    s.close_session(a);
    assert_eq!(s.index_of(a), None);
    assert_eq!(s.index_of(b), Some(0));
    s.close_session(a);
    assert_eq!(s.list.len(), 1);
    assert_eq!(s.await_constraints(a).unwrap_err().to_string(), "session gone");
    s.list[0].data.on_session_event(SessionEvent::Stopped);
    assert_eq!(
        s.await_constraints(b).unwrap_err().to_string(),
        "capture session stopped before first frame"
    );
    assert!(s.list.is_empty());
    assert_eq!(s.overlay_cursor(), 0);
    s.paint_cursors = true;
    assert_eq!(s.overlay_cursor(), 1);
}

#[test]
fn one_frame_is_waited_for_in_slices() {
    assert_eq!(poll_slice(0, 1000), Some(50));
    assert_eq!(poll_slice(990, 1000), Some(10));
    assert_eq!(poll_slice(1000, 1000), None);
    let (a, b) = (SessionId(1), SessionId(2));
    assert_eq!(poll_one(a, &vec![b, a], &vec![a]), Waited::Frame(1));
    assert_eq!(poll_one(a, &vec![b], &vec![a]), Waited::Stopped);
    assert_eq!(poll_one(a, &vec![b], &vec![b]), Waited::NotYet);
}

#[test]
fn devices_and_modifiers_are_told_as_the_protocol_has_them() {
    assert_eq!(main_device_after(None, Some(3)), Some(3));
    assert_eq!(main_device_after(Some(2), Some(3)), Some(2));
    assert_eq!(modifier_halves(0x1_0000_0002), (1, 2));
    assert!(importable(1) && importable(4) && !importable(0) && !importable(5));
}

#[test]
fn a_planned_buffer_is_read_top_down() {
    let mut ids = SessionIds::new();
    let mut s = Sessions::new(false);
    s.new_session(&mut ids, Protocol::Screencopy);
    let d = &mut s.list[0].data;
    d.on_screencopy_event(ScreencopyEvent::Buffer {
        format: ShmFormat::Xrgb8888,
        width: 1,
        height: 2,
        stride: 6,
    });
    let plan = d.alloc_shm().unwrap();
    assert_eq!(plan.size, 12);
    let raw = [1, 2, 3, 0, 9, 9, 4, 5, 6, 0, 9, 9];
    assert_eq!(harvest(&raw, 1, 2, &plan, false).rgba, vec![3, 2, 1, 255, 6, 5, 4, 255]);
    assert_eq!(harvest(&raw, 1, 2, &plan, true).rgba, vec![6, 5, 4, 255, 3, 2, 1, 255]);
}

#[test]
fn every_session_is_armed_and_harvested() {
    let mut ids = SessionIds::new();
    let mut s = Sessions::new(false);
    let a = s.new_session(&mut ids, Protocol::ImageCopyCapture);
    let b = s.new_session(&mut ids, Protocol::ImageCopyCapture);
    described(&mut s, 4, 2);
    assert_eq!(s.await_constraints(a).ok(), Some(true));
    assert_eq!(
        s.arm_sessions(),
        vec![(a, Arm::Allocate { width: 4, height: 2 }), (b, Arm::Leave)]
    );
    s.list[0].install(false);
    s.list[0].data.on_frame_event(FrameEvent::Ready);
    assert_eq!(
        s.harvest_sessions(),
        vec![(a, Harvest::Read { dmabuf: false, flip: false }), (b, Harvest::Nothing)]
    );
}

#[test]
fn two_clients_share_no_session_id() {
    let mut ids = SessionIds::new();
    let (mut one, mut other) = (Sessions::new(false), Sessions::new(true));
    let a = one.new_session(&mut ids, Protocol::ImageCopyCapture);
    let b = other.new_session(&mut ids, Protocol::ImageCopyCapture);
    let c = one.new_session(&mut ids, Protocol::ImageCopyCapture);
    assert!(a != b && b != c && a != c);
    assert!(ids.has_next());
    assert_eq!(other.index_of(a), None);
}
