//! Capture sessions: what each one is waiting for, and what to ask of the compositor next.
//!
//! A session is opened on a source, told what buffer the compositor wants, armed with one
//! frame at a time and harvested when the frame is ready. The requests themselves and the
//! buffers' memory are the caller's; here is every decision between two of them.

use crate::error::{failed_with, no_cause, CaptureError};
use crate::image::{
    convert, flip_vertically, fourcc, fourcc_spec, rows_fit, CapturedImage, PixelLayout, ShmFormat,
};
use crate::wl::Protocol;
use vstd::prelude::*;

verus! {

/// DRM "invalid"/"let the driver choose" modifier sentinel — not a real layout.
pub const DRM_MOD_INVALID: u64 = 0x00ff_ffff_ffff_ffff;

/// Most planes `EGL_EXT_image_dma_buf_import(_modifiers)` can describe.
pub const MAX_DMABUF_PLANES: u32 = 4;

/// Opaque handle to a capture session, valid until it is closed.
///
/// A plain counter rather than a protocol object id: a `zwlr-screencopy` session
/// owns no long-lived object (its frame object is recreated for every capture), so
/// there is nothing durable to name it after.
#[derive(Clone, Copy, Debug, PartialEq, Eq, Hash, PartialOrd, Ord, Structural)]
pub struct SessionId(pub u64);

/// Where session ids come from: one for the whole process, so that no two clients hand out
/// the same.
#[derive(Debug)]
pub struct SessionIds {
    next: u64,
}

impl SessionIds {
    /// The number the next id will carry.
    pub closed spec fn upcoming(&self) -> u64 {
        self.next
    }

    /// No id given out yet.
    pub fn new() -> (r: SessionIds)
        ensures
            r.upcoming() == 1,
    {
        SessionIds { next: 1 }
    }

    /// Whether there are ids left.
    pub fn has_next(&self) -> (r: bool)
        ensures
            r == (self.upcoming() < u64::MAX),
    {
        self.next < u64::MAX
    }
}

impl SessionId {
    /// An id never given out before.
    pub fn next(ids: &mut SessionIds) -> (r: SessionId)
        requires
            old(ids).upcoming() < u64::MAX,
        ensures
            r.0 == old(ids).upcoming(),
            final(ids).upcoming() == old(ids).upcoming() + 1,
    {
        let n: u64 = ids.next;
        ids.next = n + 1;
        SessionId(n)
    }
}

/// Why a frame could not be captured.
#[derive(Clone, Copy, Debug, PartialEq, Eq, Structural)]
pub enum FailureReason {
    Unknown,
    /// The buffer no longer is what the compositor wants.
    BufferConstraints,
    /// The source is gone.
    Stopped,
}

/// Per-session bookkeeping, updated by what the compositor says.
#[derive(Debug)]
pub struct SessionData {
    /// Latest buffer constraints advertised by the compositor.
    pub width: u32,
    pub height: u32,
    pub format: Option<ShmFormat>,
    /// Row stride the compositor dictates, when it dictates one. `zwlr-screencopy`
    /// names the stride it will write with; `ext-image-copy-capture` leaves it to us.
    pub stride: Option<u32>,
    /// dma-buf device the compositor wants buffers allocated on (raw dev_t).
    pub dmabuf_dev: Option<u64>,
    /// dma-buf formats advertised: (drm fourcc, supported modifiers). An empty
    /// modifier list means the compositor named a format but no layout, so the
    /// driver picks one (`zwlr-screencopy`'s `linux_dmabuf` event).
    pub dmabuf_formats: Vec<(u32, Vec<u64>)>,
    /// Set once a constraints group has been received.
    pub constraints_done: bool,
    /// `zwlr-screencopy`: the in-flight frame has announced its buffer types and is
    /// waiting for a `copy` request.
    pub awaiting_copy: bool,
    /// Whether this session has delivered a frame yet. The first `zwlr-screencopy`
    /// capture of a session is an unconditional `copy` (so a static source still
    /// shows something at once); later ones wait for damage.
    pub delivered: bool,
    /// The compositor reports the captured contents bottom-up (`y_invert`).
    pub y_invert: bool,
    /// Constraints changed since the buffer was last (re)allocated (e.g. resize).
    pub dirty: bool,
    /// Set when the current in-flight frame is ready to read.
    pub ready: bool,
    /// A transient per-frame failure (retry next round); `BufferConstraints`
    /// additionally triggers a reallocation. Not terminal.
    pub frame_failed: Option<FailureReason>,
    /// Terminal: the session/source stopped and won't produce more frames.
    pub stopped: bool,
    /// Set for a single capture that is closed right after.
    ///
    /// Such a capture ends up as CPU pixels anyway — it is encoded, cropped or
    /// sampled — so importing a dma-buf only to read it straight back would build a
    /// whole EGL context per call for nothing. Live sessions, whose frames are
    /// sampled as GL textures, keep the zero-copy path.
    pub one_shot: bool,
}

/// Dma-buf formats and their modifiers.
pub type Formats = Seq<(u32, Seq<u64>)>;

/// What the advertised formats are.
pub open spec fn formats_view(v: Seq<(u32, Vec<u64>)>) -> Formats {
    v.map_values(|p: (u32, Vec<u64>)| (p.0, p.1@))
}

/// A session's bookkeeping, as a value.
#[verifier::ext_equal]
pub struct Facts {
    pub width: u32,
    pub height: u32,
    pub format: Option<ShmFormat>,
    pub stride: Option<u32>,
    pub dmabuf_dev: Option<u64>,
    pub dmabuf_formats: Formats,
    pub constraints_done: bool,
    pub awaiting_copy: bool,
    pub delivered: bool,
    pub y_invert: bool,
    pub dirty: bool,
    pub ready: bool,
    pub frame_failed: Option<FailureReason>,
    pub stopped: bool,
    pub one_shot: bool,
}

impl View for SessionData {
    type V = Facts;

    open spec fn view(&self) -> Facts {
        Facts {
            width: self.width,
            height: self.height,
            format: self.format,
            stride: self.stride,
            dmabuf_dev: self.dmabuf_dev,
            dmabuf_formats: formats_view(self.dmabuf_formats@),
            constraints_done: self.constraints_done,
            awaiting_copy: self.awaiting_copy,
            delivered: self.delivered,
            y_invert: self.y_invert,
            dirty: self.dirty,
            ready: self.ready,
            frame_failed: self.frame_failed,
            stopped: self.stopped,
            one_shot: self.one_shot,
        }
    }
}

/// Nothing known yet.
pub open spec fn no_facts() -> Facts {
    Facts {
        width: 0,
        height: 0,
        format: None,
        stride: None,
        dmabuf_dev: None,
        dmabuf_formats: Seq::empty(),
        constraints_done: false,
        awaiting_copy: false,
        delivered: false,
        y_invert: false,
        dirty: false,
        ready: false,
        frame_failed: None,
        stopped: false,
        one_shot: false,
    }
}

impl Default for SessionData {
    fn default() -> (r: Self)
        ensures
            r@ == no_facts(),
    {
        let r = SessionData {
            width: 0,
            height: 0,
            format: None,
            stride: None,
            dmabuf_dev: None,
            dmabuf_formats: Vec::new(),
            constraints_done: false,
            awaiting_copy: false,
            delivered: false,
            y_invert: false,
            dirty: false,
            ready: false,
            frame_failed: None,
            stopped: false,
            one_shot: false,
        };
        assert(r@ =~= no_facts());
        r
    }
}

/// What an `ext-image-copy-capture` session says.
#[derive(Debug)]
pub enum SessionEvent {
    BufferSize { width: u32, height: u32 },
    ShmFormat(ShmFormat),
    /// The device to allocate on, where the event named one.
    DmabufDevice(Option<u64>),
    DmabufFormat { format: u32, modifiers: Vec<u64> },
    /// The constraints are complete.
    Done,
    Stopped,
    Other,
}

/// What an `ext-image-copy-capture` frame says.
#[derive(Clone, Copy, Debug, PartialEq, Eq, Structural)]
pub enum FrameEvent {
    Ready,
    Failed(FailureReason),
    Other,
}

/// What a `zwlr-screencopy` frame says.
#[derive(Clone, Copy, Debug, PartialEq, Eq, Structural)]
pub enum ScreencopyEvent {
    Buffer { format: ShmFormat, width: u32, height: u32, stride: u32 },
    LinuxDmabuf { fourcc: u32, width: u32, height: u32 },
    BufferDone,
    Flags { y_invert: bool },
    Ready,
    Failed,
    Other,
}

impl Facts {
    /// After something an `ext-image-copy-capture` session says. A constraints group ends
    /// with `Done`, which flags a (re)allocation so a resize between frames grows the
    /// buffer.
    pub open spec fn after_session_event(self, e: SessionEvent) -> Facts {
        match e {
            SessionEvent::BufferSize { width, height } => Facts { width, height, ..self },
            SessionEvent::ShmFormat(f) => Facts { format: Some(f), ..self },
            SessionEvent::DmabufDevice(Some(d)) => Facts { dmabuf_dev: Some(d), ..self },
            SessionEvent::DmabufDevice(None) => self,
            SessionEvent::DmabufFormat { format, modifiers } => Facts {
                dmabuf_formats: self.dmabuf_formats.push((format, modifiers@)),
                ..self
            },
            SessionEvent::Done => Facts { constraints_done: true, dirty: true, ..self },
            SessionEvent::Stopped => Facts { stopped: true, ..self },
            SessionEvent::Other => self,
        }
    }

    /// After something an `ext-image-copy-capture` frame says. A frame failure means
    /// destroying the frame, not the session: only `Stopped` is terminal.
    pub open spec fn after_frame_event(self, e: FrameEvent) -> Facts {
        match e {
            FrameEvent::Ready => Facts { ready: true, ..self },
            FrameEvent::Failed(FailureReason::Stopped) => Facts { stopped: true, ..self },
            FrameEvent::Failed(reason) => Facts { frame_failed: Some(reason), ..self },
            FrameEvent::Other => self,
        }
    }

    /// After something a `zwlr-screencopy` frame says. The constraints come round again
    /// with each frame, so the buffer is marked stale only when they changed.
    pub open spec fn after_screencopy_event(self, e: ScreencopyEvent) -> Facts {
        match e {
            ScreencopyEvent::Buffer { format, width, height, stride } => Facts {
                width,
                height,
                format: Some(format),
                stride: Some(stride),
                dirty: self.dirty || (self.width, self.height, self.format, self.stride) != (
                    width,
                    height,
                    Some(format),
                    Some(stride),
                ),
                ..self
            },
            ScreencopyEvent::LinuxDmabuf { fourcc, width, height } => {
                let announced = seq![(fourcc, Seq::<u64>::empty())];
                Facts {
                    width,
                    height,
                    dmabuf_formats: announced,
                    dirty: self.dirty || self.dmabuf_formats != announced || (
                        self.width,
                        self.height,
                    ) != (width, height),
                    ..self
                }
            },
            ScreencopyEvent::BufferDone => Facts {
                constraints_done: true,
                awaiting_copy: true,
                ..self
            },
            ScreencopyEvent::Flags { y_invert } => Facts {
                y_invert,
                dirty: self.dirty || self.y_invert != y_invert,
                ..self
            },
            ScreencopyEvent::Ready => Facts { ready: true, ..self },
            // A screencopy frame has no transient failure: the whole capture is off.
            ScreencopyEvent::Failed => Facts { stopped: true, ..self },
            ScreencopyEvent::Other => self,
        }
    }
}

impl SessionData {
    /// Take in what an `ext-image-copy-capture` session says.
    pub fn on_session_event(&mut self, e: SessionEvent)
        ensures
            final(self)@ == old(self)@.after_session_event(e),
    {
        match e {
            SessionEvent::BufferSize { width, height } => {
                self.width = width;
                self.height = height;
            },
            SessionEvent::ShmFormat(f) => {
                self.format = Some(f);
            },
            SessionEvent::DmabufDevice(d) => {
                if let Some(d) = d {
                    self.dmabuf_dev = Some(d);
                }
            },
            SessionEvent::DmabufFormat { format, modifiers } => {
                self.dmabuf_formats.push((format, modifiers));
            },
            SessionEvent::Done => {
                self.constraints_done = true;
                self.dirty = true;
            },
            SessionEvent::Stopped => {
                self.stopped = true;
            },
            SessionEvent::Other => {},
        }
        assert(self@ =~= old(self)@.after_session_event(e));
    }

    /// Take in what an `ext-image-copy-capture` frame says.
    pub fn on_frame_event(&mut self, e: FrameEvent)
        ensures
            final(self)@ == old(self)@.after_frame_event(e),
    {
        match e {
            FrameEvent::Ready => {
                self.ready = true;
            },
            FrameEvent::Failed(reason) => match reason {
                FailureReason::Stopped => {
                    self.stopped = true;
                },
                _ => {
                    self.frame_failed = Some(reason);
                },
            },
            FrameEvent::Other => {},
        }
    }

    /// Take in what a `zwlr-screencopy` frame says.
    pub fn on_screencopy_event(&mut self, e: ScreencopyEvent)
        ensures
            final(self)@ == old(self)@.after_screencopy_event(e),
    {
        match e {
            ScreencopyEvent::Buffer { format, width, height, stride } => {
                let same_format = match self.format {
                    Some(f) => f == format,
                    None => false,
                };
                let same_stride = match self.stride {
                    Some(s) => s == stride,
                    None => false,
                };
                if !(self.width == width && self.height == height && same_format && same_stride) {
                    self.dirty = true;
                }
                self.width = width;
                self.height = height;
                self.format = Some(format);
                self.stride = Some(stride);
            },
            ScreencopyEvent::LinuxDmabuf { fourcc, width, height } => {
                let ghost announced = seq![(fourcc, Seq::<u64>::empty())];
                let same_formats = self.dmabuf_formats.len() == 1 && self.dmabuf_formats[0].0
                    == fourcc && self.dmabuf_formats[0].1.len() == 0;
                assert(same_formats == (self@.dmabuf_formats == announced)) by {
                    if same_formats {
                        assert(self@.dmabuf_formats[0].1 =~= Seq::<u64>::empty());
                        assert(self@.dmabuf_formats =~= announced);
                    } else if self@.dmabuf_formats == announced {
                        let v = self.dmabuf_formats@;
                        assert(formats_view(v).len() == v.len());
                        assert(formats_view(v)[0] == (v[0].0, v[0].1@));
                        assert(announced[0] == (fourcc, Seq::<u64>::empty()));
                    }
                }
                if !(same_formats && self.width == width && self.height == height) {
                    self.dirty = true;
                }
                self.width = width;
                self.height = height;
                let mut fresh: Vec<(u32, Vec<u64>)> = Vec::new();
                fresh.push((fourcc, Vec::new()));
                self.dmabuf_formats = fresh;
                assert(self@.dmabuf_formats[0].1 =~= Seq::<u64>::empty());
                assert(self@.dmabuf_formats =~= announced);
            },
            ScreencopyEvent::BufferDone => {
                self.constraints_done = true;
                self.awaiting_copy = true;
            },
            ScreencopyEvent::Flags { y_invert } => {
                // The orientation belongs to the source, so a change means the
                // buffer has to be reallocated on the path that can handle it.
                if self.y_invert != y_invert {
                    self.dirty = true;
                }
                self.y_invert = y_invert;
            },
            ScreencopyEvent::Ready => {
                self.ready = true;
            },
            ScreencopyEvent::Failed => {
                self.stopped = true;
            },
            ScreencopyEvent::Other => {},
        }
    }
}

/// The dma-buf formats the library can both allocate and decode, best first: XRGB8888,
/// ARGB8888, XBGR8888, ABGR8888.
pub open spec fn preferred() -> Seq<u32> {
    seq![
        fourcc_spec(0x58, 0x52, 0x32, 0x34),
        fourcc_spec(0x41, 0x52, 0x32, 0x34),
        fourcc_spec(0x58, 0x42, 0x32, 0x34),
        fourcc_spec(0x41, 0x42, 0x32, 0x34),
    ]
}

/// The modifiers of the first entry for `want`, from `k` on.
pub open spec fn offered(formats: Formats, want: u32, k: int) -> Option<Seq<u64>>
    decreases formats.len() - k,
{
    if k < 0 || k >= formats.len() {
        None
    } else if formats[k].0 == want {
        Some(formats[k].1)
    } else {
        offered(formats, want, k + 1)
    }
}

/// A real layout.
pub open spec fn real_layout() -> spec_fn(u64) -> bool {
    |m: u64| m != DRM_MOD_INVALID
}

/// The layouts usable with `want`, if it can be allocated at all: real ones only, or none
/// where the compositor named none and the driver may choose.
pub open spec fn usable(formats: Formats, want: u32) -> Option<Seq<u64>> {
    match offered(formats, want, 0) {
        Some(mods) => {
            let kept = mods.filter(real_layout());
            if kept.len() > 0 || mods.len() == 0 {
                Some(kept)
            } else {
                None
            }
        },
        None => None,
    }
}

/// The best format from the `k`-th preferred on.
pub open spec fn best_from(formats: Formats, k: int) -> Option<(u32, Seq<u64>)>
    decreases 4 - k,
{
    if k < 0 || k >= 4 {
        None
    } else {
        match usable(formats, preferred()[k]) {
            Some(mods) => Some((preferred()[k], mods)),
            None => best_from(formats, k + 1),
        }
    }
}

/// The usable layouts of the first entry for `want`.
fn usable_modifiers(formats: &[(u32, Vec<u64>)], want: u32) -> (r: Option<Vec<u64>>)
    ensures
        match r {
            Some(m) => usable(formats_view(formats@), want) == Some(m@),
            None => usable(formats_view(formats@), want) is None,
        },
{
    let ghost f = formats_view(formats@);
    for i in 0..formats.len()
        invariant
            f == formats_view(formats@),
            offered(f, want, 0) == offered(f, want, i as int),
    {
        if formats[i].0 == want {
            let mods = &formats[i].1;
            assert(offered(f, want, 0) == Some(mods@));
            let mut kept: Vec<u64> = Vec::new();
            for j in 0..mods.len()
                invariant
                    kept@ == mods@.take(j as int).filter(real_layout()),
            {
                assert(mods@.take(j + 1).drop_last() =~= mods@.take(j as int));
                reveal_with_fuel(Seq::filter, 2);
                if mods[j] != DRM_MOD_INVALID {
                    kept.push(mods[j]);
                }
            }
            assert(mods@.take(mods@.len() as int) =~= mods@);
            return if kept.len() > 0 || mods.len() == 0 {
                Some(kept)
            } else {
                None
            };
        }
    }
    None
}

/// Pick a dma-buf format we can both allocate and decode, plus its usable
/// modifiers (dropping `INVALID`). Prefers the common 32-bit RGB layouts.
///
/// An empty modifier list on the way in means the compositor named the format
/// without naming a layout, and an empty list on the way out says the same to the
/// allocator: let the driver choose.
pub fn pick_dmabuf_format(formats: &[(u32, Vec<u64>)]) -> (r: Option<(u32, Vec<u64>)>)
    ensures
        match r {
            Some((f, mods)) => best_from(formats_view(formats@), 0) == Some((f, mods@)),
            None => best_from(formats_view(formats@), 0) is None,
        },
{
    let wanted: [u32; 4] = [
        fourcc(0x58, 0x52, 0x32, 0x34),
        fourcc(0x41, 0x52, 0x32, 0x34),
        fourcc(0x58, 0x42, 0x32, 0x34),
        fourcc(0x41, 0x42, 0x32, 0x34),
    ];
    assert(wanted@ =~= preferred());
    let mut k: usize = 0;
    while k < 4
        invariant
            wanted@ == preferred(),
            k <= 4,
            best_from(formats_view(formats@), 0) == best_from(formats_view(formats@), k as int),
        decreases 4 - k,
    {
        if let Some(mods) = usable_modifiers(formats, wanted[k]) {
            return Some((wanted[k], mods));
        }
        k = k + 1;
    }
    None
}

/// Whatever is picked can be decoded, and never names the sentinel as a layout.
pub proof fn the_picked_format_is_decodable(formats: Formats)
    ensures
        best_from(formats, 0) matches Some((f, mods)) ==> {
            &&& PixelLayout::shm_of_fourcc(f) is Some
            &&& forall|i: int| 0 <= i < mods.len() ==> mods[i] != DRM_MOD_INVALID
        },
{
    broadcast use vstd::seq_lib::group_filter_ensures;

    reveal_with_fuel(best_from, 5);
}

/// The two 32-bit halves of a modifier, high one first, as the buffer parameters take it.
pub fn modifier_halves(modifier: u64) -> (r: (u32, u32))
    ensures
        r.0 == modifier / 0x1_0000_0000,
        r.1 == modifier % 0x1_0000_0000,
{
    ((modifier / 0x1_0000_0000) as u32, (modifier % 0x1_0000_0000) as u32)
}

/// Whether a buffer with this many planes can be imported.
pub fn importable(plane_count: u32) -> (r: bool)
    ensures
        r == (1 <= plane_count <= MAX_DMABUF_PLANES),
{
    1 <= plane_count && plane_count <= MAX_DMABUF_PLANES
}

/// A shared-memory buffer to allocate.
#[derive(Clone, Copy, Debug, PartialEq, Eq, Structural)]
pub struct ShmPlan {
    /// The pixel format.
    pub format: ShmFormat,
    /// Its layout.
    pub layout: PixelLayout,
    /// Bytes from one row to the next.
    pub stride: u64,
    /// Bytes in all.
    pub size: u128,
}

/// Why no shared-memory buffer can be had.
#[derive(Clone, Copy, Debug, PartialEq, Eq, Structural)]
pub enum ShmRefusal {
    /// The compositor offered no format.
    NoFormat,
    /// The format is not one the library decodes.
    Unsupported(ShmFormat),
}

impl Facts {
    /// The shared-memory buffer the constraints ask for. The format's own bytes per pixel
    /// are the floor; a wider stride is honoured when the compositor names one, since it
    /// will write rows at that pitch.
    pub open spec fn shm_plan(self) -> Result<ShmPlan, ShmRefusal> {
        match self.format {
            None => Err(ShmRefusal::NoFormat),
            Some(f) => match PixelLayout::layout_of(f) {
                None => Err(ShmRefusal::Unsupported(f)),
                Some(layout) => {
                    let packed = self.width * layout.bpp;
                    let stride = match self.stride {
                        Some(s) => if s > packed {
                            s as int
                        } else {
                            packed
                        },
                        None => packed,
                    };
                    Ok(
                        ShmPlan {
                            format: f,
                            layout,
                            stride: stride as u64,
                            size: (stride * self.height) as u128,
                        },
                    )
                },
            },
        }
    }

    /// Whether the session may capture into a dma-buf. A bottom-up source stays on shared
    /// memory: frames are handed out top-down, and flipping a GPU buffer would cost a blit
    /// at every consumer.
    pub open spec fn gpu_allowed(self, gpu_disabled: bool) -> bool {
        !gpu_disabled && !self.one_shot && !self.y_invert
    }
}

/// A dma-buf to allocate.
#[derive(Debug)]
pub struct DmabufPlan {
    /// The DRM format.
    pub fourcc: u32,
    /// The layouts to choose from; none lets the driver choose.
    pub modifiers: Vec<u64>,
    /// The device to allocate on (raw dev_t), where one is known.
    pub device: Option<u64>,
}

/// `a`, or `b` where there is none.
pub open spec fn or_else(a: Option<u64>, b: Option<u64>) -> Option<u64> {
    match a {
        Some(_) => a,
        None => b,
    }
}

impl SessionData {
    /// The shared-memory buffer to allocate, with the format-correct stride.
    pub fn alloc_shm(&self) -> (r: Result<ShmPlan, ShmRefusal>)
        ensures
            r == self@.shm_plan(),
    {
        match self.format {
            None => Err(ShmRefusal::NoFormat),
            Some(f) => match PixelLayout::of(f) {
                None => Err(ShmRefusal::Unsupported(f)),
                Some(layout) => {
                    assert(self.width * layout.bpp <= 0xffff_ffff * 4) by (nonlinear_arith)
                        requires
                            self.width <= 0xffff_ffff,
                            layout.bpp <= 4,
                    ;
                    let packed: u64 = self.width as u64 * layout.bpp as u64;
                    let stride: u64 = match self.stride {
                        Some(s) => if s as u64 > packed {
                            s as u64
                        } else {
                            packed
                        },
                        None => packed,
                    };
                    assert(stride * self.height <= 0x4_0000_0000 * 0xffff_ffff) by (nonlinear_arith)
                        requires
                            stride <= 0x4_0000_0000,
                            self.height <= 0xffff_ffff,
                    ;
                    let size: u128 = stride as u128 * self.height as u128;
                    Ok(ShmPlan { format: f, layout, stride, size })
                },
            },
        }
    }

    /// The dma-buf to allocate, or `None` whenever the GPU path isn't usable — switched
    /// off, no manager to make buffers with, no suitable format — so the caller falls back
    /// to shared memory. A session that names no device of its own takes `main_device`.
    pub fn alloc_dmabuf(&self, gpu_disabled: bool, manager: bool, main_device: Option<u64>) -> (r:
        Option<DmabufPlan>)
        ensures
            r is Some <==> self@.gpu_allowed(gpu_disabled) && manager && best_from(
                self@.dmabuf_formats,
                0,
            ) is Some,
            r matches Some(p) ==> best_from(self@.dmabuf_formats, 0) == Some(
                (p.fourcc, p.modifiers@),
            ) && p.device == or_else(self@.dmabuf_dev, main_device),
    {
        if gpu_disabled || self.one_shot || self.y_invert || !manager {
            return None;
        }
        match pick_dmabuf_format(self.dmabuf_formats.as_slice()) {
            None => None,
            Some((fourcc, modifiers)) => {
                let device = match self.dmabuf_dev {
                    Some(d) => Some(d),
                    None => main_device,
                };
                Some(DmabufPlan { fourcc, modifiers, device })
            },
        }
    }
}

/// Turn the bytes the compositor wrote into a planned shared-memory buffer into pixels.
///
/// `y_invert` means the compositor wrote the rows bottom-up; every image the library hands
/// out is top-down.
pub fn harvest(raw: &[u8], w: u32, h: u32, plan: &ShmPlan, y_invert: bool) -> (r: CapturedImage)
    requires
        plan.layout.wf(),
        plan.stride <= usize::MAX,
        rows_fit(raw@, w as int, h as int, plan.stride as int, plan.layout.bpp as int),
        w * h * 4 <= usize::MAX,
    ensures
        r.wf(),
        r.width == w,
        r.height == h,
        forall|x: int, y: int|
            0 <= x < w && 0 <= y < h ==> #[trigger] r.at(x, y) == plan.layout.decode(
                raw@,
                (if y_invert {
                    h - 1 - y
                } else {
                    y
                }) * plan.stride + x * plan.layout.bpp,
            ),
{
    let mut img = convert(raw, w, h, plan.stride as usize, &plan.layout);
    let ghost written = img;
    if y_invert {
        flip_vertically(&mut img);
        assert forall|x: int, y: int| 0 <= x < w && 0 <= y < h implies #[trigger] img.at(x, y)
            == plan.layout.decode(raw@, (h - 1 - y) * plan.stride + x * plan.layout.bpp) by {
            assert(img.at(x, y) == written.at(x, h - 1 - y));
        }
    }
    img
}

/// A buffer allocated as planned holds the frame it was planned for: reading it out never
/// leaves it.
pub proof fn a_planned_buffer_holds_its_frame(facts: Facts, plan: ShmPlan, raw: Seq<u8>)
    requires
        facts.shm_plan() == Ok::<ShmPlan, ShmRefusal>(plan),
        raw.len() == plan.size,
    ensures
        plan.layout.wf(),
        rows_fit(
            raw,
            facts.width as int,
            facts.height as int,
            plan.stride as int,
            plan.layout.bpp as int,
        ),
{
    let (w, h, bpp) = (facts.width as int, facts.height as int, plan.layout.bpp as int);
    assert(0 <= w * bpp <= 0xffff_ffff * 4) by (nonlinear_arith)
        requires
            0 <= w <= 0xffff_ffff,
            0 <= bpp <= 4,
    ;
    let s = plan.stride as int;
    assert(s >= w * bpp);
    assert(0 <= s * h <= 0x4_0000_0000 * 0xffff_ffff) by (nonlinear_arith)
        requires
            0 <= s <= 0x4_0000_0000,
            0 <= h <= 0xffff_ffff,
    ;
    assert(s * h == (h - 1) * s + s) by (nonlinear_arith);
}

/// The buffer a session captures into, reused from frame to frame.
#[derive(Clone, Copy, Debug, PartialEq, Eq, Structural)]
pub struct Buf {
    /// Width in pixels.
    pub width: u32,
    /// Height in pixels.
    pub height: u32,
    /// On the GPU, rather than in shared memory.
    pub dmabuf: bool,
}

/// A capture session.
#[derive(Debug)]
pub struct Session {
    /// Its name.
    pub id: SessionId,
    /// The protocol it is captured through.
    pub protocol: Protocol,
    /// The compositor has described the buffer it wants, and the session is driven.
    pub open: bool,
    /// A frame is in flight.
    pub armed: bool,
    /// Its buffer, once allocated.
    pub buf: Option<Buf>,
    /// What the compositor said.
    pub data: SessionData,
}

/// A session, as a value.
#[verifier::ext_equal]
pub struct Snapshot {
    pub id: SessionId,
    pub protocol: Protocol,
    pub open: bool,
    pub armed: bool,
    pub buf: Option<Buf>,
    pub facts: Facts,
}

impl View for Session {
    type V = Snapshot;

    open spec fn view(&self) -> Snapshot {
        Snapshot {
            id: self.id,
            protocol: self.protocol,
            open: self.open,
            armed: self.armed,
            buf: self.buf,
            facts: self.data@,
        }
    }
}

/// What arming a session takes.
#[derive(Clone, Copy, Debug, PartialEq, Eq, Structural)]
pub enum Arm {
    /// Nothing: it has stopped, a capture is already in flight, or there is nothing to
    /// capture yet.
    Leave,
    /// Start a screencopy frame. The buffer can only be handed over once that frame has
    /// said which one it wants, and it says so afresh every time.
    StartFrame,
    /// Allocate a buffer of this size, then [`Session::install`] it.
    Allocate { width: u32, height: u32 },
    /// Create a frame, attach the buffer to it and capture.
    Capture,
    /// Copy into the buffer, whatever the source is doing.
    Copy,
    /// Copy into the buffer once the source has changed.
    CopyWithDamage,
}

impl Snapshot {
    /// The buffer is there and the right size, and nothing has made it stale.
    pub open spec fn fits(self) -> bool {
        !self.facts.dirty && match self.buf {
            Some(b) => b.width == self.facts.width && b.height == self.facts.height,
            None => false,
        }
    }

    /// The request that starts a capture into the buffer, and the session once it is made.
    /// The first capture of a screencopy session must land whatever the source is doing, so
    /// the caller sees something at once; only afterwards does waiting for damage keep a
    /// static source quiet.
    pub open spec fn request(self) -> (Arm, Snapshot) {
        let facts = Facts { ready: false, awaiting_copy: false, ..self.facts };
        match self.protocol {
            Protocol::ImageCopyCapture => (Arm::Capture, Snapshot { armed: true, facts, ..self }),
            Protocol::Screencopy => (
                if self.facts.delivered {
                    Arm::CopyWithDamage
                } else {
                    Arm::Copy
                },
                Snapshot { facts, ..self },
            ),
        }
    }

    /// What arming takes, and the session after it.
    pub open spec fn arming(self) -> (Arm, Snapshot) {
        if !self.open || self.facts.stopped || (self.armed && !self.facts.awaiting_copy) {
            (Arm::Leave, self)
        } else if !self.armed && self.protocol == Protocol::Screencopy {
            (
                Arm::StartFrame,
                Snapshot {
                    armed: true,
                    facts: Facts { ready: false, constraints_done: false, ..self.facts },
                    ..self
                },
            )
        } else if self.fits() {
            self.request()
        } else if self.facts.width == 0 || self.facts.height == 0 {
            (Arm::Leave, self)
        } else {
            (Arm::Allocate { width: self.facts.width, height: self.facts.height }, self)
        }
    }

    /// With a fresh buffer, on the GPU or not.
    pub open spec fn with_buffer(self, dmabuf: bool) -> Snapshot {
        Snapshot {
            buf: Some(Buf { width: self.facts.width, height: self.facts.height, dmabuf }),
            facts: Facts { dirty: false, ..self.facts },
            ..self
        }
    }
}

impl Session {
    /// Arm an idle session, or hand a buffer to a screencopy frame that has announced its
    /// constraints. A session with a capture already in flight is left alone.
    pub fn arm(&mut self) -> (r: Arm)
        ensures
            (r, final(self)@) == old(self)@.arming(),
    {
        if !self.open || self.data.stopped || (self.armed && !self.data.awaiting_copy) {
            return Arm::Leave;
        }
        if !self.armed && self.protocol == Protocol::Screencopy {
            self.data.ready = false;
            self.data.constraints_done = false;
            self.armed = true;
            return Arm::StartFrame;
        }
        let same_size = match self.buf {
            Some(b) => b.width == self.data.width && b.height == self.data.height,
            None => false,
        };
        if same_size && !self.data.dirty {
            return self.request();
        }
        if self.data.width == 0 || self.data.height == 0 {
            return Arm::Leave;
        }
        Arm::Allocate { width: self.data.width, height: self.data.height }
    }

    /// Take the buffer [`Arm::Allocate`] asked for, and go on to the capture.
    pub fn install(&mut self, dmabuf: bool) -> (r: Arm)
        ensures
            (r, final(self)@) == old(self)@.with_buffer(dmabuf).request(),
    {
        self.buf = Some(Buf { width: self.data.width, height: self.data.height, dmabuf });
        self.data.dirty = false;
        self.request()
    }

    /// Start a capture into the buffer.
    fn request(&mut self) -> (r: Arm)
        ensures
            (r, final(self)@) == old(self)@.request(),
    {
        self.data.ready = false;
        self.data.awaiting_copy = false;
        match self.protocol {
            Protocol::ImageCopyCapture => {
                self.armed = true;
                Arm::Capture
            },
            Protocol::Screencopy => if self.data.delivered {
                Arm::CopyWithDamage
            } else {
                Arm::Copy
            },
        }
    }
}

/// A session whose capture has been requested is left alone until something happens.
pub proof fn arming_is_idempotent(s: Snapshot, dmabuf: bool)
    ensures
        matches!(s.arming().0, Arm::Capture | Arm::Copy | Arm::CopyWithDamage)
            ==> s.arming().1.arming() == (Arm::Leave, s.arming().1),
        s.arming().0 == Arm::StartFrame && !s.facts.awaiting_copy ==> s.arming().1.arming() == (
            Arm::Leave,
            s.arming().1,
        ),
        s.arming().0 is Allocate ==> s.with_buffer(dmabuf).request().1.arming() == (
            Arm::Leave,
            s.with_buffer(dmabuf).request().1,
        ),
{
}

/// A capture only ever goes into a buffer of the size the compositor asked for.
pub proof fn a_capture_has_a_fitting_buffer(s: Snapshot, dmabuf: bool)
    ensures
        matches!(s.arming().0, Arm::Capture | Arm::Copy | Arm::CopyWithDamage)
            ==> s.arming().1.fits(),
        s.arming().0 is Allocate ==> s.with_buffer(dmabuf).request().1.fits(),
{
}

/// What a session has to give after a round.
#[derive(Clone, Copy, Debug, PartialEq, Eq, Structural)]
pub enum Harvest {
    /// Nothing new: a static source keeps its frame in flight.
    Nothing,
    /// The source is gone. Drop the frame and report the session.
    Stopped,
    /// The frame failed. Drop it; the next round tries again.
    Retry,
    /// The frame cannot be handed on. Drop it; the next one comes into another buffer.
    Discard,
    /// Read the buffer, turning it the right way up if `flip`, and drop the frame.
    Read { dmabuf: bool, flip: bool },
}

impl Snapshot {
    /// What there is to take, and the session once it is taken.
    pub open spec fn harvesting(self) -> (Harvest, Snapshot) {
        if !self.open {
            (Harvest::Nothing, self)
        } else if self.facts.stopped {
            (Harvest::Stopped, Snapshot { armed: false, ..self })
        } else if self.facts.ready {
            // A bottom-up dma-buf cannot be handed on as it is: discard it and reallocate,
            // so the next round comes through shared memory.
            let inverted = self.facts.y_invert && (self.buf matches Some(b) && b.dmabuf);
            (
                match self.buf {
                    Some(b) => if inverted {
                        Harvest::Discard
                    } else {
                        Harvest::Read { dmabuf: b.dmabuf, flip: self.facts.y_invert }
                    },
                    None => Harvest::Discard,
                },
                Snapshot {
                    armed: false,
                    facts: Facts {
                        ready: false,
                        frame_failed: None,
                        dirty: self.facts.dirty || inverted,
                        ..self.facts
                    },
                    ..self
                },
            )
        } else {
            match self.facts.frame_failed {
                Some(reason) => (
                    Harvest::Retry,
                    Snapshot {
                        armed: false,
                        facts: Facts {
                            frame_failed: None,
                            awaiting_copy: false,
                            dirty: self.facts.dirty || reason == FailureReason::BufferConstraints,
                            ..self.facts
                        },
                        ..self
                    },
                ),
                None => (Harvest::Nothing, self),
            }
        }
    }
}

impl Session {
    /// Collect the frame that became ready, or what stands in its place.
    pub fn harvest(&mut self) -> (r: Harvest)
        ensures
            (r, final(self)@) == old(self)@.harvesting(),
    {
        if !self.open {
            return Harvest::Nothing;
        }
        if self.data.stopped {
            self.armed = false;
            return Harvest::Stopped;
        }
        if self.data.ready {
            let inverted = match self.buf {
                Some(b) => self.data.y_invert && b.dmabuf,
                None => false,
            };
            self.armed = false;
            self.data.ready = false;
            self.data.frame_failed = None;
            if inverted {
                self.data.dirty = true;
            }
            return match self.buf {
                Some(b) => if inverted {
                    Harvest::Discard
                } else {
                    Harvest::Read { dmabuf: b.dmabuf, flip: self.data.y_invert }
                },
                None => Harvest::Discard,
            };
        }
        if let Some(reason) = self.data.frame_failed {
            self.armed = false;
            self.data.frame_failed = None;
            self.data.awaiting_copy = false;
            if reason == FailureReason::BufferConstraints {
                self.data.dirty = true;
            }
            return Harvest::Retry;
        }
        Harvest::Nothing
    }

    /// The frame [`Harvest::Read`] named was read.
    pub fn delivered(&mut self)
        ensures
            final(self)@ == (Snapshot {
                facts: Facts { delivered: true, ..old(self)@.facts },
                ..old(self)@
            }),
    {
        self.data.delivered = true;
    }
}

/// Every frame handed out is top-down, or in memory where it can be turned: a GPU frame is
/// never bottom-up.
pub proof fn gpu_frames_are_top_down(s: Snapshot)
    ensures
        s.harvesting().0 matches Harvest::Read { dmabuf, flip } ==> !(dmabuf && flip),
        s.open && !s.facts.stopped && s.facts.ready && s.facts.y_invert && (s.buf matches Some(b)
            && b.dmabuf) ==> s.harvesting().1.facts.dirty && !s.harvesting().1.facts.gpu_allowed(
            false,
        ),
{
}

/// A stopped session stays stopped: nothing the compositor says afterwards and no round of
/// arming or harvesting brings it back, and it is never armed again.
pub proof fn stopping_is_terminal(s: Snapshot, a: SessionEvent, b: FrameEvent, c: ScreencopyEvent)
    requires
        s.facts.stopped,
    ensures
        s.facts.after_session_event(a).stopped,
        s.facts.after_frame_event(b).stopped,
        s.facts.after_screencopy_event(c).stopped,
        s.arming() == (Arm::Leave, s),
        s.harvesting().1.facts.stopped,
        s.open ==> s.harvesting().0 == Harvest::Stopped,
{
}

/// A frame that failed for a passing reason leaves the session able to be armed again.
pub proof fn a_failed_frame_is_retried(s: Snapshot, reason: FailureReason)
    requires
        s.open,
        !s.facts.stopped,
        !s.facts.ready,
        reason != FailureReason::Stopped,
    ensures
        ({
            let failed = Snapshot {
                facts: s.facts.after_frame_event(FrameEvent::Failed(reason)),
                ..s
            };
            let (what, after) = failed.harvesting();
            &&& what == Harvest::Retry
            &&& !after.armed && !after.facts.stopped && after.facts.frame_failed is None
            &&& reason == FailureReason::BufferConstraints ==> !after.fits()
        }),
{
}

/// The sessions a client drives.
#[derive(Debug)]
pub struct Sessions {
    /// The sessions, oldest first.
    pub list: Vec<Session>,
    /// Whether the zero-copy dma-buf path is off, because it was asked to be or because an
    /// import failed.
    pub gpu_disabled: bool,
    /// Whether the compositor composites the mouse cursor into captured frames. Off by
    /// default: a screenshot should show the screen, not where the pointer happened to
    /// rest. Read when a session is opened, so it must be set before.
    pub paint_cursors: bool,
}

/// The session called `id` stands at `i`.
pub open spec fn at_id(list: Seq<Session>, id: SessionId, i: int) -> bool {
    0 <= i < list.len() && list[i].id == id
}

impl Sessions {
    /// Every session has its own id, later ones the larger.
    pub open spec fn wf(&self) -> bool {
        forall|i: int, j: int|
            0 <= i < j < self.list@.len() ==> (#[trigger] self.list@[i]).id.0 < (
            #[trigger] self.list@[j]).id.0
    }

    /// The ids to come are new ones.
    pub open spec fn before(&self, ids: SessionIds) -> bool {
        forall|i: int|
            0 <= i < self.list@.len() ==> (#[trigger] self.list@[i]).id.0 < ids.upcoming()
    }

    /// Whether a session of this name is there.
    pub open spec fn knows(&self, id: SessionId) -> bool {
        exists|i: int| at_id(self.list@, id, i)
    }

    /// No two sessions share a name.
    pub proof fn ids_are_distinct(&self, i: int, j: int)
        requires
            self.wf(),
            0 <= i < self.list@.len(),
            0 <= j < self.list@.len(),
            self.list@[i].id == self.list@[j].id,
        ensures
            i == j,
    {
    }

    /// No session yet. `gpu_disabled` captures through shared memory from the start.
    pub fn new(gpu_disabled: bool) -> (r: Sessions)
        ensures
            r.wf(),
            r.list@.len() == 0,
            r.gpu_disabled == gpu_disabled,
            !r.paint_cursors,
    {
        Sessions { list: Vec::new(), gpu_disabled, paint_cursors: false }
    }

    /// Allocate a session id and its bookkeeping, before any protocol object is created
    /// with it. A screencopy session starts with a frame in flight: the first frame doubles
    /// as the constraints probe, and the frame we learn them from is the one then copied
    /// into.
    pub fn new_session(&mut self, ids: &mut SessionIds, protocol: Protocol) -> (id: SessionId)
        requires
            old(self).wf(),
            old(self).before(*old(ids)),
            old(ids).upcoming() < u64::MAX,
        ensures
            final(self).wf(),
            final(self).before(*final(ids)),
            !old(self).knows(id),
            id.0 == old(ids).upcoming(),
            final(ids).upcoming() == old(ids).upcoming() + 1,
            final(self).gpu_disabled == old(self).gpu_disabled,
            final(self).paint_cursors == old(self).paint_cursors,
            final(self).list@.len() == old(self).list@.len() + 1,
            final(self).list@.drop_last() == old(self).list@,
            final(self).list@.last()@ == (Snapshot {
                id,
                protocol,
                open: false,
                armed: protocol == Protocol::Screencopy,
                buf: None,
                facts: no_facts(),
            }),
    {
        let id = SessionId::next(ids);
        self.list.push(
            Session {
                id,
                protocol,
                open: false,
                armed: protocol == Protocol::Screencopy,
                buf: None,
                data: SessionData::default(),
            },
        );
        assert(self.list@.drop_last() =~= old(self).list@);
        assert forall|i: int| 0 <= i < old(self).list@.len() implies self.list@[i] == #[trigger] old(
            self,
        ).list@[i] by {
            assert(self.list@.drop_last()[i] == self.list@[i]);
        }
        id
    }

    /// Where the session of this name stands.
    pub fn index_of(&self, id: SessionId) -> (r: Option<usize>)
        ensures
            match r {
                Some(i) => at_id(self.list@, id, i as int),
                None => !self.knows(id),
            },
    {
        for i in 0..self.list.len()
            invariant
                forall|j: int| 0 <= j < i ==> !at_id(self.list@, id, j),
        {
            if self.list[i].id == id {
                return Some(i);
            }
        }
        None
    }

    /// Tear a session down (e.g. its window closed). One that is not there is no matter.
    pub fn close_session(&mut self, id: SessionId)
        requires
            old(self).wf(),
        ensures
            final(self).wf(),
            !final(self).knows(id),
            final(self).gpu_disabled == old(self).gpu_disabled,
            final(self).paint_cursors == old(self).paint_cursors,
            !old(self).knows(id) ==> final(self).list@ == old(self).list@,
            forall|i: int|
                at_id(old(self).list@, id, i) ==> final(self).list@ == #[trigger] old(self).list@.remove(i),
    {
        match self.index_of(id) {
            None => {},
            Some(i) => {
                let gone = self.list.remove(i);
                assert forall|k: int| at_id(old(self).list@, id, k) implies k == i by {
                    old(self).ids_are_distinct(i as int, k);
                }
                assert forall|k: int| !at_id(self.list@, id, k) by {
                    if at_id(self.list@, id, k) {
                        let was = if k < i {
                            k
                        } else {
                            k + 1
                        };
                        assert(self.list@[k] == old(self).list@[was]);
                        old(self).ids_are_distinct(i as int, was);
                    }
                }
            },
        }
    }

    /// Stop using the dma-buf path and capture into shared memory from now on: every buffer
    /// already handed to the compositor is stale, so the next frame arrives as CPU pixels
    /// rather than as a descriptor nothing can import.
    pub fn disable_gpu(&mut self)
        requires
            old(self).wf(),
        ensures
            final(self).wf(),
            final(self).gpu_disabled,
            final(self).paint_cursors == old(self).paint_cursors,
            final(self).list@.len() == old(self).list@.len(),
            forall|i: int|
                0 <= i < old(self).list@.len() ==> (#[trigger] final(self).list@[i])@
                    == if old(self).gpu_disabled {
                    old(self).list@[i]@
                } else {
                    Snapshot {
                        facts: Facts { dirty: true, ..old(self).list@[i]@.facts },
                        ..old(self).list@[i]@
                    }
                },
    {
        if self.gpu_disabled {
            return ;
        }
        self.gpu_disabled = true;
        let n: usize = self.list.len();
        for i in 0..n
            invariant
                n == self.list@.len(),
                self.gpu_disabled,
                self.paint_cursors == old(self).paint_cursors,
                old(self).wf(),
                !old(self).gpu_disabled,
                self.list@.len() == old(self).list@.len(),
                forall|j: int|
                    i <= j < self.list@.len() ==> self.list@[j] == old(self).list@[j],
                forall|j: int|
                    0 <= j < i ==> (#[trigger] self.list@[j])@ == (Snapshot {
                        facts: Facts { dirty: true, ..old(self).list@[j]@.facts },
                        ..old(self).list@[j]@
                    }),
        {
            assert(self.list@[i as int] == old(self).list@[i as int]);
            self.list[i].data.dirty = true;
        }
        assert forall|i: int, j: int| 0 <= i < j < self.list@.len() implies (
        #[trigger] self.list@[i]).id.0 < (#[trigger] self.list@[j]).id.0 by {
            assert(self.list@[i]@.id == old(self).list@[i]@.id);
            assert(self.list@[j]@.id == old(self).list@[j]@.id);
        }
    }

    /// Arm every session ([`Session::arm`]); what each takes, oldest session first.
    pub fn arm_sessions(&mut self) -> (r: Vec<(SessionId, Arm)>)
        requires
            old(self).wf(),
        ensures
            final(self).wf(),
            final(self).gpu_disabled == old(self).gpu_disabled,
            final(self).paint_cursors == old(self).paint_cursors,
            final(self).list@.len() == old(self).list@.len(),
            r@.len() == old(self).list@.len(),
            forall|i: int|
                0 <= i < r@.len() ==> {
                    &&& (#[trigger] r@[i]).0 == old(self).list@[i].id
                    &&& (r@[i].1, final(self).list@[i]@) == old(self).list@[i]@.arming()
                },
    {
        let mut out: Vec<(SessionId, Arm)> = Vec::new();
        let n: usize = self.list.len();
        for k in 0..n
            invariant
                n == self.list@.len(),
                old(self).wf(),
                self.gpu_disabled == old(self).gpu_disabled,
                self.paint_cursors == old(self).paint_cursors,
                self.list@.len() == old(self).list@.len(),
                out@.len() == k,
                forall|i: int| k <= i < n ==> self.list@[i] == old(self).list@[i],
                forall|i: int|
                    0 <= i < k ==> {
                        &&& (#[trigger] out@[i]).0 == old(self).list@[i].id
                        &&& (out@[i].1, self.list@[i]@) == old(self).list@[i]@.arming()
                    },
        {
            assert(self.list@[k as int] == old(self).list@[k as int]);
            let id = self.list[k].id;
            let arm = self.list[k].arm();
            out.push((id, arm));
        }
        proof {
            assert forall|i: int| 0 <= i < n implies (#[trigger] self.list@[i]).id == old(
                self,
            ).list@[i].id by {
                assert(out@[i].0 == old(self).list@[i].id);
                assert(self.list@[i]@.id == old(self).list@[i]@.id);
            }
            self.same_ids(*old(self));
        }
        out
    }

    /// Collect from every session ([`Session::harvest`]); what there is of each, oldest
    /// session first.
    pub fn harvest_sessions(&mut self) -> (r: Vec<(SessionId, Harvest)>)
        requires
            old(self).wf(),
        ensures
            final(self).wf(),
            final(self).gpu_disabled == old(self).gpu_disabled,
            final(self).paint_cursors == old(self).paint_cursors,
            final(self).list@.len() == old(self).list@.len(),
            r@.len() == old(self).list@.len(),
            forall|i: int|
                0 <= i < r@.len() ==> {
                    &&& (#[trigger] r@[i]).0 == old(self).list@[i].id
                    &&& (r@[i].1, final(self).list@[i]@) == old(self).list@[i]@.harvesting()
                },
    {
        let mut out: Vec<(SessionId, Harvest)> = Vec::new();
        let n: usize = self.list.len();
        for k in 0..n
            invariant
                n == self.list@.len(),
                old(self).wf(),
                self.gpu_disabled == old(self).gpu_disabled,
                self.paint_cursors == old(self).paint_cursors,
                self.list@.len() == old(self).list@.len(),
                out@.len() == k,
                forall|i: int| k <= i < n ==> self.list@[i] == old(self).list@[i],
                forall|i: int|
                    0 <= i < k ==> {
                        &&& (#[trigger] out@[i]).0 == old(self).list@[i].id
                        &&& (out@[i].1, self.list@[i]@) == old(self).list@[i]@.harvesting()
                    },
        {
            assert(self.list@[k as int] == old(self).list@[k as int]);
            let id = self.list[k].id;
            let harvest = self.list[k].harvest();
            out.push((id, harvest));
        }
        proof {
            assert forall|i: int| 0 <= i < n implies (#[trigger] self.list@[i]).id == old(
                self,
            ).list@[i].id by {
                assert(out@[i].0 == old(self).list@[i].id);
                assert(self.list@[i]@.id == old(self).list@[i]@.id);
            }
            self.same_ids(*old(self));
        }
        out
    }

    /// Sessions that carry the ids of others are as well-formed.
    proof fn same_ids(&self, other: Sessions)
        requires
            other.wf(),
            self.list@.len() == other.list@.len(),
            forall|i: int|
                0 <= i < self.list@.len() ==> (#[trigger] self.list@[i]).id == other.list@[i].id,
        ensures
            self.wf(),
    {
        assert forall|i: int, j: int| 0 <= i < j < self.list@.len() implies (
        #[trigger] self.list@[i]).id.0 < (#[trigger] self.list@[j]).id.0 by {
            assert(other.list@[i].id.0 < other.list@[j].id.0);
        }
    }

    /// Whether a screencopy frame has described the buffer it wants and waits for it.
    pub fn pending_copy(&self) -> (r: bool)
        ensures
            r == exists|i: int|
                0 <= i < self.list@.len() && (#[trigger] self.list@[i])@.facts.awaiting_copy
                    && !self.list@[i]@.facts.stopped,
    {
        for i in 0..self.list.len()
            invariant
                forall|j: int|
                    0 <= j < i ==> !((#[trigger] self.list@[j])@.facts.awaiting_copy
                        && !self.list@[j]@.facts.stopped),
        {
            if self.list[i].data.awaiting_copy && !self.list[i].data.stopped {
                assert(self.list@[i as int]@.facts.awaiting_copy);
                return true;
            }
        }
        false
    }

    /// Whether a round of polling goes round again. A screencopy capture is armed in two
    /// steps — create the frame, then copy into it once the compositor has described the
    /// buffer it wants — and both happen inside one poll, while there is time.
    pub fn poll_again(&self, time_left: bool) -> (r: bool)
        ensures
            r == (time_left && exists|i: int|
                0 <= i < self.list@.len() && (#[trigger] self.list@[i])@.facts.awaiting_copy
                    && !self.list@[i]@.facts.stopped),
    {
        time_left && self.pending_copy()
    }

    /// Whether the compositor has described the buffer session `id` wants, which is then
    /// open; `false` means to keep waiting. A session that stopped first is torn down.
    pub fn await_constraints(&mut self, id: SessionId) -> (r: Result<bool, CaptureError>)
        requires
            old(self).wf(),
        ensures
            final(self).wf(),
            final(self).gpu_disabled == old(self).gpu_disabled,
            final(self).paint_cursors == old(self).paint_cursors,
            !old(self).knows(id) ==> failed_with(
                r,
                "session gone"@,
                no_cause(),
            ) && final(self).list@ == old(self).list@,
            forall|i: int| #[trigger]
                at_id(old(self).list@, id, i) ==> {
                    let d = old(self).list@[i]@.facts;
                    if d.stopped {
                        &&& failed_with(
                            r,
                            "capture session stopped before first frame"@,
                            no_cause(),
                        )
                        &&& final(self).list@ == old(self).list@.remove(i)
                    } else if d.constraints_done {
                        &&& r == Ok::<bool, CaptureError>(true)
                        &&& final(self).list@.len() == old(self).list@.len()
                        &&& final(self).list@[i]@ == (Snapshot {
                            open: true,
                            ..old(self).list@[i]@
                        })
                        &&& forall|k: int|
                            0 <= k < old(self).list@.len() && k != i ==> #[trigger] final(self).list@[k] == old(self).list@[k]
                    } else {
                        &&& r == Ok::<bool, CaptureError>(false)
                        &&& final(self).list@ == old(self).list@
                    }
                },
    {
        let i: usize = match self.index_of(id) {
            None => {
                return Err(CaptureError::msg("session gone"));
            },
            Some(i) => i,
        };
        assert forall|k: int| #[trigger] at_id(old(self).list@, id, k) implies k == i by {
            old(self).ids_are_distinct(i as int, k);
        }
        if self.list[i].data.stopped {
            self.close_session(id);
            return Err(CaptureError::msg("capture session stopped before first frame"));
        }
        if self.list[i].data.constraints_done {
            self.list[i].open = true;
            assert forall|k: int, j: int| 0 <= k < j < self.list@.len() implies (
            #[trigger] self.list@[k]).id.0 < (#[trigger] self.list@[j]).id.0 by {
                assert(self.list@[k].id == old(self).list@[k].id);
                assert(self.list@[j].id == old(self).list@[j].id);
            }
            return Ok(true);
        }
        Ok(false)
    }

    /// The `zwlr-screencopy` `overlay_cursor` argument matching the cursor setting.
    pub fn overlay_cursor(&self) -> (r: i32)
        ensures
            r == if self.paint_cursors {
                1i32
            } else {
                0i32
            },
    {
        if self.paint_cursors {
            1
        } else {
            0
        }
    }
}

/// Two clients never name a session alike: an id that one was given is not given to another,
/// since ids only ever move on.
pub proof fn clients_share_no_id(one: Sessions, ids: SessionIds, given: SessionId, i: int)
    requires
        one.before(ids),
        given.0 >= ids.upcoming(),
        0 <= i < one.list@.len(),
    ensures
        one.list@[i].id != given,
{
}

/// Once the dma-buf path is off, no session is offered a dma-buf, and none keeps one it had
/// for its next capture.
pub proof fn without_gpu_nothing_stays_on_it(before: Sessions, after: Sessions, i: int)
    requires
        0 <= i < before.list@.len(),
        !before.gpu_disabled,
        after.gpu_disabled,
        after.list@.len() == before.list@.len(),
        after.list@[i]@ == (Snapshot {
            facts: Facts { dirty: true, ..before.list@[i]@.facts },
            ..before.list@[i]@
        }),
    ensures
        !after.list@[i]@.facts.gpu_allowed(after.gpu_disabled),
        !after.list@[i]@.fits(),
{
}

/// What one slice of waiting for a single frame came to.
#[derive(Clone, Copy, Debug, PartialEq, Eq, Structural)]
pub enum Waited {
    /// The frame is the one at this position among those delivered.
    Frame(usize),
    /// The session stopped first.
    Stopped,
    /// Nothing yet.
    NotYet,
}

/// How long to wait before looking again, in milliseconds: a slice of fifty at most, and
/// not past the deadline. `None` once the deadline has come.
pub fn poll_slice(now: u64, deadline: u64) -> (r: Option<u64>)
    ensures
        r == if now >= deadline {
            None
        } else if deadline - now < 50 {
            Some((deadline - now) as u64)
        } else {
            Some(50u64)
        },
{
    if now >= deadline {
        None
    } else if deadline - now < 50 {
        Some(deadline - now)
    } else {
        Some(50)
    }
}

/// Where `id` first stands in `v`, from `k` on.
pub open spec fn first_id(v: Seq<SessionId>, id: SessionId, k: int) -> Option<int>
    decreases v.len() - k,
{
    if k < 0 || k >= v.len() {
        None
    } else if v[k] == id {
        Some(k)
    } else {
        first_id(v, id, k + 1)
    }
}

/// Whether the session `id` yielded a frame among those `delivered` this round, or is among
/// those that `stopped`. Frames from other sessions in this round are discarded.
pub fn poll_one(id: SessionId, delivered: &Vec<SessionId>, stopped: &Vec<SessionId>) -> (r: Waited)
    ensures
        r == match first_id(delivered@, id, 0) {
            Some(i) => Waited::Frame(i as usize),
            None => if stopped@.contains(id) {
                Waited::Stopped
            } else {
                Waited::NotYet
            },
        },
{
    for i in 0..delivered.len()
        invariant
            first_id(delivered@, id, 0) == first_id(delivered@, id, i as int),
    {
        if delivered[i] == id {
            return Waited::Frame(i);
        }
    }
    for i in 0..stopped.len()
        invariant
            first_id(delivered@, id, 0) is None,
            forall|j: int| 0 <= j < i ==> stopped@[j] != id,
    {
        if stopped[i] == id {
            assert(stopped@.contains(id));
            return Waited::Stopped;
        }
    }
    Waited::NotYet
}

/// The GPU the compositor renders on. The main device comes before any tranche, so the
/// first device named wins and a tranche's target is only a fallback.
pub fn main_device_after(known: Option<u64>, named: Option<u64>) -> (r: Option<u64>)
    ensures
        r == or_else(known, named),
{
    match known {
        Some(d) => Some(d),
        None => named,
    }
}

/// A capture is made into a buffer of the size that was announced last: the session asks for
/// one wherever the one it has is of another size, or it has none.
pub proof fn a_buffer_of_the_announced_size_is_asked_for(s: Snapshot, width: u32, height: u32)
    requires
        s.open,
        !s.facts.stopped,
        !s.armed,
        s.protocol == Protocol::ImageCopyCapture,
        width > 0,
        height > 0,
        s.buf matches Some(b) ==> (b.width, b.height) != (width, height),
    ensures
        ({
            let told = Snapshot {
                facts: s.facts.after_session_event(SessionEvent::BufferSize { width, height }),
                ..s
            };
            told.arming() == (Arm::Allocate { width, height }, told)
        }),
{
}

/// The same of a frame of the older protocol, whose buffer is announced with each frame.
pub proof fn a_frame_that_changed_size_gets_another_buffer(
    s: Snapshot,
    format: ShmFormat,
    width: u32,
    height: u32,
    stride: u32,
)
    requires
        s.open,
        !s.facts.stopped,
        s.protocol == Protocol::Screencopy,
        s.armed,
        width > 0,
        height > 0,
    ensures
        ({
            let facts = s.facts.after_screencopy_event(
                ScreencopyEvent::Buffer { format, width, height, stride },
            ).after_screencopy_event(ScreencopyEvent::BufferDone);
            let told = Snapshot { facts, ..s };
            let same = s.facts.format == Some(format) && s.facts.stride == Some(stride)
                && s.facts.width == width && s.facts.height == height;
            &&& facts.width == width && facts.height == height && facts.format == Some(format)
                && facts.stride == Some(stride)
            &&& (!same || s.facts.dirty || s.buf is None) ==> told.arming().0 == (Arm::Allocate {
                width,
                height,
            })
            &&& same && !s.facts.dirty && (s.buf matches Some(b) && b.width == width && b.height
                == height) ==> told.arming().0 == (if s.facts.delivered {
                Arm::CopyWithDamage
            } else {
                Arm::Copy
            })
        }),
{
}

/// One round of the newer protocol: a session with a fitting buffer captures, waits, reads the
/// frame out of that buffer when it is ready, and is then ready for the next.
pub proof fn a_round_of_capturing(s: Snapshot, buf: Buf)
    requires
        s.open,
        !s.facts.stopped,
        !s.armed,
        !s.facts.dirty,
        !s.facts.y_invert,
        s.facts.frame_failed is None,
        s.protocol == Protocol::ImageCopyCapture,
        s.buf == Some(buf),
        buf.width == s.facts.width,
        buf.height == s.facts.height,
    ensures
        ({
            let (asked, waiting) = s.arming();
            let arrived = Snapshot {
                facts: waiting.facts.after_frame_event(FrameEvent::Ready),
                ..waiting
            };
            let (read, after) = arrived.harvesting();
            &&& asked == Arm::Capture
            &&& waiting.arming().0 == Arm::Leave && waiting.harvesting() == (
                Harvest::Nothing,
                waiting,
            )
            &&& read == (Harvest::Read { dmabuf: buf.dmabuf, flip: false })
            &&& after.harvesting() == (Harvest::Nothing, after)
            &&& after.arming().0 == Arm::Capture
        }),
{
}

/// One round of the older protocol: a frame is started, waits for its buffer to be announced, is
/// copied once it is, and the next one is copied with its damage.
pub proof fn a_round_of_copying(s: Snapshot, buf: Buf, flip: bool)
    requires
        s.open,
        !s.facts.stopped,
        !s.armed,
        !s.facts.dirty,
        !s.facts.awaiting_copy,
        s.facts.y_invert == flip,
        s.facts.frame_failed is None,
        s.protocol == Protocol::Screencopy,
        s.buf == Some(buf),
        !buf.dmabuf,
        buf.width == s.facts.width,
        buf.height == s.facts.height,
    ensures
        ({
            let (first, started) = s.arming();
            let announced = Snapshot {
                facts: started.facts.after_screencopy_event(ScreencopyEvent::BufferDone),
                ..started
            };
            let (second, copying) = announced.arming();
            let arrived = Snapshot {
                facts: copying.facts.after_screencopy_event(
                    ScreencopyEvent::Flags { y_invert: flip },
                ).after_screencopy_event(ScreencopyEvent::Ready),
                ..copying
            };
            let (read, after) = arrived.harvesting();
            &&& first == Arm::StartFrame && started.arming() == (Arm::Leave, started)
            &&& second == (if s.facts.delivered {
                Arm::CopyWithDamage
            } else {
                Arm::Copy
            })
            &&& copying.arming().0 == Arm::Leave && copying.harvesting().0 == Harvest::Nothing
            &&& read == (Harvest::Read { dmabuf: false, flip })
            &&& after.arming().0 == Arm::StartFrame
        }),
{
}

/// A frame that was handed out makes the copies after it ask for the damage only.
pub proof fn what_was_delivered_is_copied_with_damage(s: &mut Session, r: Arm)
    requires
        call_ensures(Session::delivered, (s,), ()),
        old(s)@.protocol == Protocol::Screencopy,
        final(s)@.request().0 == r,
    ensures
        r == Arm::CopyWithDamage,
        final(s)@.buf == old(s)@.buf,
        final(s)@.armed == old(s)@.armed,
        final(s)@.open == old(s)@.open,
{
}

/// Every byte of shared memory that is asked for is part of a row: the rows are as long as was
/// announced, or as their pixels where those are longer, and there are as many as pixels.
pub proof fn rows_are_as_long_as_announced(d: SessionData, r: Result<ShmPlan, ShmRefusal>)
    requires
        call_ensures(SessionData::alloc_shm, (&d,), r),
    ensures
        r matches Ok(plan) ==> {
            let row = d.width * plan.layout.bpp;
            &&& d.format == Some(plan.format)
            &&& plan.stride >= row
            &&& d.stride matches Some(s) ==> plan.stride >= s
            &&& plan.stride == row || d.stride == Some(plan.stride as u32)
            &&& plan.size == plan.stride * d.height
        },
        r is Ok ==> d.format is Some,
        r == Err::<ShmPlan, ShmRefusal>(ShmRefusal::NoFormat) <==> d.format is None,
{
    if let Ok(plan) = r {
        let (w, h, bpp) = (d.width as int, d.height as int, plan.layout.bpp as int);
        assert(0 <= w * bpp <= 0xffff_ffff * 4) by (nonlinear_arith)
            requires
                0 <= w <= 0xffff_ffff,
                0 <= bpp <= 4,
        ;
        let s = plan.stride as int;
        assert(0 <= s * h <= 0x4_0000_0000 * 0xffff_ffff) by (nonlinear_arith)
            requires
                0 <= s <= 0x4_0000_0000,
                0 <= h <= 0xffff_ffff,
        ;
    }
}

/// What is picked was offered: the format stands in the offer, and its modifiers are those that
/// stand beside it, without the one that means none in particular.
pub proof fn the_picked_format_was_offered(
    formats: &[(u32, Vec<u64>)],
    r: Option<(u32, Vec<u64>)>,
    m: u64,
)
    requires
        call_ensures(pick_dmabuf_format, (formats,), r),
    ensures
        r matches Some((f, mods)) ==> exists|k: int|
            0 <= k < formats@.len() && (#[trigger] formats@[k]).0 == f && (mods@.contains(m)
                <==> formats@[k].1@.contains(m) && m != DRM_MOD_INVALID),
{
    let v = formats_view(formats@);
    if let Some((f, mods)) = r {
        reveal_with_fuel(best_from, 5);
        let all = offered(v, f, 0)->0;
        offered_stands(v, f, 0);
        let k = choose|k: int| 0 <= k < v.len() && (#[trigger] v[k]).0 == f && v[k].1 == all;
        assert(formats@[k].0 == f && formats@[k].1@ == all);
        assert(mods@ == all.filter(real_layout()));
        filtered_holds(all, m);
    }
}

proof fn offered_stands(formats: Formats, want: u32, k: int)
    requires
        0 <= k,
    ensures
        match offered(formats, want, k) {
            Some(mods) => exists|i: int|
                k <= i < formats.len() && (#[trigger] formats[i]).0 == want && formats[i].1 == mods,
            None => forall|i: int|
                k <= i < formats.len() ==> (#[trigger] formats[i]).0 != want,
        },
    decreases formats.len() - k,
{
    if k < formats.len() {
        if formats[k].0 != want {
            offered_stands(formats, want, k + 1);
        }
    }
}

proof fn filtered_holds(mods: Seq<u64>, m: u64)
    ensures
        mods.filter(real_layout()).contains(m) <==> mods.contains(m) && m != DRM_MOD_INVALID,
{
    broadcast use vstd::seq_lib::group_filter_ensures;

    let keep = real_layout();
    let kept = mods.filter(keep);
    if kept.contains(m) {
        mods.lemma_filter_contains_rev(keep, m);
        let i = choose|i: int| 0 <= i < kept.len() && kept[i] == m;
        assert(keep(kept[i]));
    }
    if mods.contains(m) && m != DRM_MOD_INVALID {
        let i = choose|i: int| 0 <= i < mods.len() && mods[i] == m;
        mods.lemma_filter_contains(keep, i);
    }
}

/// An XRGB format that is offered once, with a real modifier or with none at all, is picked
/// before any other.
pub proof fn xrgb_is_picked_first(
    formats: &[(u32, Vec<u64>)],
    r: Option<(u32, Vec<u64>)>,
    k: int,
    j: int,
)
    requires
        call_ensures(pick_dmabuf_format, (formats,), r),
        0 <= k < formats@.len(),
        formats@[k].0 == 0x3432_5258,
        forall|i: int| 0 <= i < formats@.len() && i != k ==> (#[trigger] formats@[i]).0
            != 0x3432_5258,
        formats@[k].1@.len() == 0 || (0 <= j < formats@[k].1@.len() && formats@[k].1@[j]
            != DRM_MOD_INVALID),
    ensures
        r matches Some(p) && p.0 == 0x3432_5258,
{
    let v = formats_view(formats@);
    let want = preferred()[0];
    assert(want == 0x3432_5258) by {
        assert(fourcc_spec(0x58, 0x52, 0x32, 0x34) == 0x3432_5258u32) by (bit_vector);
    }
    reveal_with_fuel(best_from, 2);
    offered_stands(v, want, 0);
    assert(v[k].0 == want);
    let all = formats@[k].1@;
    assert(v[k].1 == all);
    assert forall|i: int| 0 <= i < v.len() && (#[trigger] v[i]).0 == want implies i == k by {
        assert(formats@[i].0 == want);
    }
    assert(offered(v, want, 0) == Some(all));
    if all.len() > 0 {
        filtered_holds(all, all[j]);
        assert(all.contains(all[j]));
    }
}

/// The two halves of a modifier put together again are the modifier.
pub proof fn the_halves_make_the_modifier(modifier: u64, r: (u32, u32))
    requires
        call_ensures(modifier_halves, (modifier,), r),
    ensures
        r.0 * 0x1_0000_0000 + r.1 == modifier,
{
}

/// A frame that was written bottom up, read out as such, is the one read top down, turned over.
pub proof fn an_inverted_frame_is_turned_over(
    raw: &[u8],
    w: u32,
    h: u32,
    plan: ShmPlan,
    up: CapturedImage,
    down: CapturedImage,
    x: int,
    y: int,
)
    requires
        call_ensures(harvest, (raw, w, h, &plan, false), up),
        call_ensures(harvest, (raw, w, h, &plan, true), down),
        0 <= x < w,
        0 <= y < h,
    ensures
        down.width == up.width == w,
        down.height == up.height == h,
        down.at(x, y) == up.at(x, h - 1 - y),
        up.at(x, y) == plan.layout.decode(raw@, y * plan.stride + x * plan.layout.bpp),
{
}

/// A wait neither outlasts the deadline nor stands still before it.
pub proof fn a_wait_ends_by_the_deadline(now: u64, deadline: u64, r: Option<u64>)
    requires
        call_ensures(poll_slice, (now, deadline), r),
    ensures
        now < deadline <==> r is Some,
        r matches Some(ms) ==> 0 < ms <= 50 && now + ms <= deadline,
        r matches Some(ms) ==> ms == 50 || now + ms == deadline,
{
}

/// What is waited for is the session's own frame, and its end is told only where none came.
pub proof fn a_frame_is_handed_out_before_the_end(
    id: SessionId,
    delivered: Vec<SessionId>,
    stopped: Vec<SessionId>,
    r: Waited,
)
    requires
        call_ensures(poll_one, (id, &delivered, &stopped), r),
        delivered@.len() <= usize::MAX,
    ensures
        r matches Waited::Frame(i) ==> i < delivered@.len() && delivered@[i as int] == id,
        delivered@.contains(id) ==> r is Frame,
        r is Stopped <==> !delivered@.contains(id) && stopped@.contains(id),
{
    first_id_stands(delivered@, id, 0);
}

proof fn first_id_stands(v: Seq<SessionId>, id: SessionId, k: int)
    requires
        0 <= k,
    ensures
        match first_id(v, id, k) {
            Some(i) => k <= i < v.len() && v[i] == id,
            None => forall|i: int| k <= i < v.len() ==> #[trigger] v[i] != id,
        },
    decreases v.len() - k,
{
    if k < v.len() && v[k] != id {
        first_id_stands(v, id, k + 1);
    }
}

/// The first device that is named is kept.
pub proof fn the_first_device_is_kept(
    known: Option<u64>,
    named: Option<u64>,
    later: Option<u64>,
    a: Option<u64>,
    b: Option<u64>,
)
    requires
        call_ensures(main_device_after, (known, named), a),
        call_ensures(main_device_after, (a, later), b),
    ensures
        known is Some ==> a == known,
        known is None ==> a == named,
        a is Some ==> b == a,
{
}

/// The cursor is asked for where it is to be painted, and only there.
pub proof fn the_cursor_is_painted_where_asked(s: Sessions, r: i32)
    requires
        call_ensures(Sessions::overlay_cursor, (&s,), r),
    ensures
        r == 1 <==> s.paint_cursors,
        r == 0 <==> !s.paint_cursors,
{
}

/// A session opens once its buffer is announced, and is asked for one then; before that it stays
/// closed, and one that the compositor stopped meanwhile goes.
pub proof fn a_session_opens_when_its_buffer_is_announced(
    s: &mut Sessions,
    id: SessionId,
    r: Result<bool, CaptureError>,
    i: int,
)
    requires
        call_ensures(Sessions::await_constraints, (s, id), r),
        at_id(old(s).list@, id, i),
    ensures
        ({
            let facts = old(s).list@[i]@.facts;
            &&& r is Err <==> facts.stopped
            &&& r == Ok::<bool, CaptureError>(true) ==> facts.constraints_done && final(
                s).list@[i]@.open && final(s).list@[i]@.facts == facts && final(s).list@[i]@.id
                == id
            &&& r == Ok::<bool, CaptureError>(false) ==> !facts.constraints_done && final(
                s).list@ == old(s).list@
            &&& r is Err ==> final(s).list@.len() == old(s).list@.len() - 1
        }),
{
}

/// A new session of the newer protocol can be armed as soon as it is open and its size known; one
/// of the older has its first frame under way from the start.
pub proof fn a_new_session_waits_for_its_buffer(
    s: &mut Sessions,
    ids: &mut SessionIds,
    protocol: Protocol,
    id: SessionId,
    width: u32,
    height: u32,
)
    requires
        call_ensures(Sessions::new_session, (s, ids, protocol), id),
        width > 0,
        height > 0,
    ensures
        ({
            let new = final(s).list@.last()@;
            let open = Snapshot { open: true, ..new };
            let known = Snapshot {
                facts: open.facts.after_session_event(SessionEvent::BufferSize { width, height }),
                ..open
            };
            &&& new.id == id && new.arming().0 == Arm::Leave
            &&& protocol == Protocol::ImageCopyCapture ==> known.arming().0 == (Arm::Allocate {
                width,
                height,
            })
            &&& protocol == Protocol::Screencopy ==> open.arming().0 == Arm::Leave
        }),
{
}

/// A buffer that was just allocated is captured into, and reused for the next frame of the same
/// size.
pub proof fn an_allocated_buffer_is_used(s: &mut Session, dmabuf: bool, r: Arm)
    requires
        call_ensures(Session::install, (s, dmabuf), r),
    ensures
        final(s)@.fits(),
        final(s)@.buf matches Some(b) && b.dmabuf == dmabuf && b.width == old(s)@.facts.width
            && b.height == old(s)@.facts.height,
        old(s)@.protocol == Protocol::ImageCopyCapture ==> r == Arm::Capture && final(s)@.armed,
        old(s)@.protocol == Protocol::Screencopy ==> r == Arm::Copy || r == Arm::CopyWithDamage,
{
}

/// The client polls again while a frame waits for its copy and there is time, and not for the
/// sake of one that stopped.
pub proof fn polling_goes_on_while_a_copy_waits(s: Sessions, time: bool, a: bool, b: bool, i: int)
    requires
        call_ensures(Sessions::pending_copy, (&s,), a),
        call_ensures(Sessions::poll_again, (&s, time), b),
    ensures
        0 <= i < s.list@.len() && s.list@[i]@.facts.awaiting_copy && !s.list@[i]@.facts.stopped
            ==> a,
        (forall|j: int|
            0 <= j < s.list@.len() ==> !(#[trigger] s.list@[j])@.facts.awaiting_copy
                || s.list@[j]@.facts.stopped) ==> !a,
        b <==> a && time,
{
}

/// What is to be done for each session stands beside its id, and no session is passed over.
pub proof fn each_session_is_answered_for(
    s: &mut Sessions,
    t: &mut Sessions,
    r: Vec<(SessionId, Arm)>,
    h: Vec<(SessionId, Harvest)>,
    i: int,
)
    requires
        call_ensures(Sessions::arm_sessions, (s,), r),
        call_ensures(Sessions::harvest_sessions, (t,), h),
        0 <= i < old(s).list@.len(),
        0 <= i < old(t).list@.len(),
    ensures
        r@[i].0 == old(s).list@[i].id,
        r@[i].1 == old(s).list@[i]@.arming().0,
        final(s).list@[i]@.id == old(s).list@[i]@.id,
        h@[i].0 == old(t).list@[i].id,
        h@[i].1 == old(t).list@[i]@.harvesting().0,
        final(t).list@[i]@.id == old(t).list@[i]@.id,
{
}

/// Buffers are on the GPU only where there is something to allocate them with, it is not turned
/// off, and neither a single shot nor a frame from the bottom up is wanted; the session's own
/// device counts before the one of all.
pub proof fn the_gpu_is_used_where_it_may(
    d: SessionData,
    off: bool,
    manager: bool,
    main: Option<u64>,
    r: Option<DmabufPlan>,
)
    requires
        call_ensures(SessionData::alloc_dmabuf, (&d, off, manager, main), r),
    ensures
        off || !manager || d.one_shot || d.y_invert ==> r is None,
        r matches Some(p) ==> (d.dmabuf_dev is Some ==> p.device == d.dmabuf_dev) && (d.dmabuf_dev
            is None ==> p.device == main),
{
}

/// What the compositor announces anew has the buffer allocated anew: the end of an announcement
/// of the newer protocol, and of the older a change of the format, the size or the direction.
pub proof fn what_is_announced_anew_is_allocated_anew(
    s: Snapshot,
    y_invert: bool,
    fourcc: u32,
    width: u32,
    height: u32,
)
    ensures
        ({
            let a = s.facts.after_session_event(SessionEvent::Done);
            let b = s.facts.after_screencopy_event(ScreencopyEvent::Flags { y_invert });
            let c = s.facts.after_screencopy_event(
                ScreencopyEvent::LinuxDmabuf { fourcc, width, height },
            );
            &&& a.constraints_done && !(Snapshot { facts: a, ..s }).fits()
            &&& b.y_invert == y_invert
            &&& y_invert != s.facts.y_invert ==> !(Snapshot { facts: b, ..s }).fits()
            &&& y_invert == s.facts.y_invert ==> (Snapshot { facts: b, ..s }).fits() == s.fits()
            &&& c.width == width && c.height == height && c.dmabuf_formats.len() == 1
                && c.dmabuf_formats[0].0 == fourcc && c.dmabuf_formats[0].1.len() == 0
            &&& s.facts.dmabuf_formats.len() != 1 || s.facts.dmabuf_formats[0].0 != fourcc ==> !(
            Snapshot { facts: c, ..s }).fits()
            &&& c.format == s.facts.format && c.stride == s.facts.stride
        }),
{
}

/// A frame that failed because the session stopped stops it, as does any failure of the older
/// protocol; for another reason it is noted, and a frame that is ready is ready.
pub proof fn a_stopped_frame_stops_the_session(f: Facts, reason: FailureReason)
    ensures
        f.after_frame_event(FrameEvent::Failed(FailureReason::Stopped)).stopped,
        f.after_session_event(SessionEvent::Stopped).stopped,
        f.after_screencopy_event(ScreencopyEvent::Failed).stopped,
        reason != FailureReason::Stopped ==> f.after_frame_event(
            FrameEvent::Failed(reason),
        ).frame_failed == Some(reason) && f.after_frame_event(FrameEvent::Failed(reason)).stopped
            == f.stopped,
        f.after_frame_event(FrameEvent::Ready).ready,
        f.after_screencopy_event(ScreencopyEvent::Ready).ready,
        f.after_frame_event(FrameEvent::Ready).stopped == f.stopped,
        f.after_frame_event(FrameEvent::Other) == f,
        f.after_session_event(SessionEvent::Other) == f,
        f.after_screencopy_event(ScreencopyEvent::Other) == f,
{
}

/// What the newer protocol announces is kept as announced: each format in turn, the last format
/// of shared memory, and the device that was named last.
pub proof fn what_is_announced_is_kept(d: &mut SessionData, e: SessionEvent)
    requires
        call_ensures(SessionData::on_session_event, (d, e), ()),
    ensures
        e matches SessionEvent::DmabufFormat { format, modifiers } ==> final(d)@.dmabuf_formats
            == old(d)@.dmabuf_formats.push((format, modifiers@)),
        e !is DmabufFormat ==> final(d)@.dmabuf_formats == old(d)@.dmabuf_formats,
        e matches SessionEvent::ShmFormat(f) ==> final(d).format == Some(f),
        e !is ShmFormat ==> final(d).format == old(d).format,
        e matches SessionEvent::DmabufDevice(Some(dev)) ==> final(d).dmabuf_dev == Some(dev),
        e == SessionEvent::DmabufDevice(None) ==> final(d).dmabuf_dev == old(d).dmabuf_dev,
        e matches SessionEvent::BufferSize { width, height } ==> final(d).width == width && final(
            d).height == height,
        final(d).one_shot == old(d).one_shot,
        final(d).delivered == old(d).delivered,
{
}

} // verus!
