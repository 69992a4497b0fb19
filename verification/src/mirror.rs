//! The live mirror's tile: its size, its chrome and its behaviour.
//!
//! A floating window that shows one source. It keeps the source's aspect ratio, collapses to
//! a badge, and any new frame while collapsed restores it. Pointer positions are in 256ths of
//! a point, which is what they are given in. Opacity is a count of [`OPAQUE`]ths: every number
//! in single precision between a fifth and one is a whole count of them.

use crate::capture::magnitude;
use crate::image::CapturedImage;
use crate::keys::{
    KEY_C, KEY_EQUAL, KEY_ESCAPE, KEY_KP_ADD, KEY_KP_SUBTRACT, KEY_MINUS, KEY_PLUS, KEY_Q, KEY_R,
    KEY_SPACE,
};
use crate::rounding::{
    cut, cut_of, half_up, half_up_of, in_single, nearest, nearest_of, single, SINGLE,
};
use vstd::prelude::*;

verus! {

/// Default tile width (points) before the source's aspect ratio is known.
pub const DEFAULT_W: u32 = 480;

/// Side of the collapsed badge (points).
pub const BADGE: u32 = 132;

/// Smallest tile width the user can resize to.
pub const MIN_W: u32 = 120;

/// Repaints to keep the "just restored" accent border visible.
pub const ACCENT_FRAMES: u32 = 60;

/// How long to show the "window closed" notice before exiting, in milliseconds.
pub const GONE_LINGER: u64 = 1400;

/// Full opacity.
pub const OPAQUE: u32 = 0x800_0000;

/// A tenth in single precision.
pub const TENTH: u32 = 13_421_773;

/// The least opacity: a fifth in single precision.
pub const FAINTEST: u32 = 26_843_546;

/// The distance from one to the next number in single precision. Opacities this close are not
/// told apart.
pub const NOTHING: u32 = 16;

/// Window chrome and behaviour.
pub struct Config {
    /// Wayland app id (for compositor window rules).
    pub app_id: String,
    /// Title shown in the hover toolbar.
    pub label: String,
    /// App icon for the collapsed badge, as `(w, h, rgba)`.
    pub icon: Option<(u32, u32, Vec<u8>)>,
    /// Arguments to run the program with again when the user re-picks. Empty disables it.
    pub relaunch: Vec<String>,
}

/// A captured frame (or the source's demise) for the single mirrored window.
pub enum PipMsg<D> {
    /// A frame in memory at full resolution.
    Shm { w: usize, h: usize, rgba: Vec<u8> },
    /// A frame on the GPU, to be imported by the host.
    Dmabuf { frame: D, width: u32, height: u32 },
    /// The source is gone (closed, or never appeared): the mirror ends.
    Gone,
}

/// What happens to the thread that captures the mirrored source.
pub enum Happened<D> {
    /// There is no connection to the compositor.
    Unreachable,
    /// A frame came, in memory.
    Shm(CapturedImage),
    /// A frame came, on the GPU.
    Dmabuf { frame: D, width: u32, height: u32 },
    /// The source ended: it closed, or did not appear in time.
    Ended,
    /// Nobody takes the messages any more.
    Unheard,
}

/// What the thread does next.
pub enum Next<D> {
    /// Send this and go on.
    Send(PipMsg<D>),
    /// Send this, and that is all.
    Last(PipMsg<D>),
    /// Stop.
    Stop,
}

/// One step of the thread that captures the mirrored source: each frame is forwarded, and the
/// source's demise, until then or until nobody listens.
pub fn capture_step<D>(happened: Happened<D>) -> (r: Next<D>)
    ensures
        match happened {
            Happened::Unreachable => r == Next::<D>::Last(PipMsg::Gone),
            Happened::Ended => r == Next::<D>::Last(PipMsg::Gone),
            Happened::Unheard => r == Next::<D>::Stop,
            Happened::Shm(img) => r matches Next::Send(PipMsg::Shm { w, h, rgba }) && w
                == img.width && h == img.height && rgba == img.rgba,
            Happened::Dmabuf { frame, width, height } => r == Next::<D>::Send(
                PipMsg::Dmabuf { frame, width, height },
            ),
        },
{
    match happened {
        Happened::Unreachable => Next::Last(PipMsg::Gone),
        Happened::Ended => Next::Last(PipMsg::Gone),
        Happened::Unheard => Next::Stop,
        Happened::Shm(img) => Next::Send(
            PipMsg::Shm { w: img.width as usize, h: img.height as usize, rgba: img.rgba },
        ),
        Happened::Dmabuf { frame, width, height } => Next::Send(
            PipMsg::Dmabuf { frame, width, height },
        ),
    }
}

/// A width and a height that have the aspect ratio of a source.
pub type Aspect = (u32, u32);

/// An aspect ratio as a number in single precision.
pub open spec fn ratio(a: Aspect) -> (nat, nat) {
    nearest(single(a.0 as nat), single(a.1 as nat), SINGLE as nat)
}

/// The height at which a tile of width `w` has an aspect ratio, in single precision. There is
/// no height to a source that has none.
pub open spec fn across(w: u32, a: Aspect) -> (nat, nat) {
    if a.1 == 0 {
        (0, 1)
    } else {
        nearest(single(w as nat) * ratio(a).1, ratio(a).0, SINGLE as nat)
    }
}

/// Whether a height is off by more than a point, in single precision.
pub open spec fn off_by_a_point(h: u32, wanted: (nat, nat)) -> bool {
    let off = nearest(
        magnitude(single(h as nat) * wanted.1 - wanted.0),
        wanted.1,
        SINGLE as nat,
    );
    off.0 > off.1
}

/// The height at which a tile of width `w` has an aspect ratio, to the nearest point and at
/// least one.
pub open spec fn height_at(w: u32, a: Aspect) -> u32 {
    let h = half_up(across(w, a));
    if h < 1 {
        1
    } else if h > u32::MAX {
        u32::MAX
    } else {
        h as u32
    }
}

fn wanted(w: u32, a: Aspect) -> (r: (u128, u128))
    requires
        a.0 > 0,
    ensures
        (r.0 as nat, r.1 as nat) == across(w, a),
        0 < r.1 <= 0x1000_0000_0000_0000,
        r.0 <= 0x1_0000_0000_0000_0000_0000_0000,
{
    if a.1 == 0 {
        return (0, 1);
    }
    let (sw, sh) = (in_single(a.0 as u64), in_single(a.1 as u64));
    let (x, y) = nearest_of(sw, sh, SINGLE);
    assert(y <= 0x400_0000_0000_0000) by (nonlinear_arith)
        requires
            y == 1 || y * sw < 2 * (0x80_0000 * sh),
            sw >= 1,
            sh <= 0x2_0000_0000,
            y >= 0,
    ;
    let width: u128 = in_single(w as u64);
    assert(width * y <= 0x2_0000_0000 * 0x400_0000_0000_0000) by (nonlinear_arith)
        requires
            width <= 0x2_0000_0000,
            y <= 0x400_0000_0000_0000,
    ;
    let n: u128 = width * y;
    let (p, q) = nearest_of(n, x, SINGLE);
    assert(q <= 0x1000_0000_0000_0000) by (nonlinear_arith)
        requires
            q == 1 || (q * n < 2 * (0x80_0000 * x) && n >= 1),
            x <= 0x8_0000_0000,
            q >= 0,
    ;
    (p, q)
}

fn height_for(w: u32, a: Aspect) -> (r: u32)
    requires
        a.0 > 0,
    ensures
        r == height_at(w, a),
{
    let (p, q) = wanted(w, a);
    let h: u128 = half_up_of(p, q);
    if h < 1 {
        1
    } else if h > 0xffff_ffff {
        u32::MAX
    } else {
        h as u32
    }
}

fn is_off(h: u32, p: u128, q: u128) -> (r: bool)
    requires
        0 < q <= 0x1000_0000_0000_0000,
        p <= 0x1_0000_0000_0000_0000_0000_0000,
    ensures
        r == off_by_a_point(h, (p as nat, q as nat)),
{
    let height: u128 = in_single(h as u64);
    assert(height * q <= 0x2_0000_0000 * 0x1000_0000_0000_0000) by (nonlinear_arith)
        requires
            height <= 0x2_0000_0000,
            q <= 0x1000_0000_0000_0000,
    ;
    let at: u128 = height * q;
    let apart: u128 = if at < p {
        p - at
    } else {
        at - p
    };
    let (a, b) = nearest_of(apart, q, SINGLE);
    a > b
}

/// The smallest tile: the least width, and the height that goes with it. Before the aspect
/// ratio is known it is a wide screen's.
pub open spec fn min_size(aspect: Option<Aspect>) -> (u32, u32) {
    match aspect {
        Some(a) => if a.0 > 0 {
            (MIN_W, height_at(MIN_W, a))
        } else {
            (MIN_W, 67)
        },
        None => (MIN_W, 67),
    }
}

/// The smallest tile size honouring the source's aspect ratio.
pub fn min_size_for(aspect: Option<Aspect>) -> (r: (u32, u32))
    ensures
        r == min_size(aspect),
{
    match aspect {
        Some(a) => if a.0 > 0 {
            (MIN_W, height_for(MIN_W, a))
        } else {
            (MIN_W, MIN_W * 9 / 16)
        },
        None => (MIN_W, MIN_W * 9 / 16),
    }
}

/// What the compositor may size the window to.
#[derive(Clone, Copy, Debug, PartialEq, Eq)]
pub struct Limits {
    /// The least width and height.
    pub min: (u32, u32),
    /// Whether that is also the largest: a badge has one size.
    pub fixed: bool,
}

/// What a press of the left button asks for.
#[derive(Clone, Copy, Debug, PartialEq, Eq, Structural)]
pub enum Pressed {
    /// The badge opened.
    Opened,
    /// The tile closes.
    Closed,
    /// The tile collapsed.
    Collapsed,
    /// The compositor resizes the window by its bottom-right corner.
    Resize,
    /// The compositor moves the window.
    Move,
}

/// What a key asks for beyond what it does to the tile.
#[derive(Clone, Copy, Debug, PartialEq, Eq, Structural)]
pub enum Keyed {
    /// Nothing.
    Nothing,
    /// A repaint.
    Repaint,
    /// The window's limits, and a repaint.
    Resized,
    /// The program is to be run again with the arguments it was given for that.
    Relaunch,
}

/// The tile.
#[derive(Clone, Copy, Debug, PartialEq, Eq)]
pub struct Tile {
    /// The size the tile is drawn at, in points.
    pub width: u32,
    pub height: u32,
    /// The source's aspect ratio, once it is known.
    pub aspect: Option<Aspect>,
    /// The aspect ratio is that of a region: the frames, which are of more than the region,
    /// must not retune it.
    pub fixed_aspect: bool,
    /// Remembered expanded size, restored when un-collapsing.
    pub expanded: (u32, u32),
    pub collapsed: bool,
    pub hovered: bool,
    /// Where the pointer is, in 256ths of a point.
    pub pointer: (i64, i64),
    /// The repaints for which the accent border stays.
    pub accent: u32,
    /// When the source went, in milliseconds.
    pub gone_since: Option<u64>,
    /// Window opacity, as so many [`OPAQUE`]ths.
    pub opacity: u32,
    /// The live feed is frozen on the last frame.
    pub frozen: bool,
    pub closing: bool,
    /// Whether there are arguments to run the program with again.
    pub relaunches: bool,
}

/// Whether a point is in the square of side `side` points whose corner is `x`, `y`, its edges
/// counted in.
pub open spec fn in_square(p: (i64, i64), x: int, y: int, side: int) -> bool {
    x * 256 <= p.0 <= (x + side) * 256 && y * 256 <= p.1 <= (y + side) * 256
}

fn within(p: (i64, i64), x: i64, y: i64, side: i64) -> (r: bool)
    requires
        -0x1_0000_0000 <= x <= 0x1_0000_0000,
        -0x1_0000_0000 <= y <= 0x1_0000_0000,
        0 <= side <= 100,
    ensures
        r == in_square(p, x as int, y as int, side as int),
{
    x * 256 <= p.0 && p.0 <= (x + side) * 256 && y * 256 <= p.1 && p.1 <= (y + side) * 256
}

impl Tile {
    /// Opacity is between a fifth and one.
    pub open spec fn wf(self) -> bool {
        FAINTEST <= self.opacity <= OPAQUE
    }

    /// The size, and what is remembered of it.
    pub open spec fn sized(self, w: u32, h: u32) -> Tile {
        Tile { width: w, height: h, ..self }
    }

    /// The tile collapsed, or opened again.
    pub open spec fn folded(self, collapsed: bool) -> Tile {
        if collapsed == self.collapsed {
            self
        } else if collapsed {
            Tile {
                collapsed: true,
                expanded: (self.width, self.height),
                width: BADGE,
                height: BADGE,
                ..self
            }
        } else {
            Tile { collapsed: false, width: self.expanded.0, height: self.expanded.1, ..self }
        }
    }

    /// A source of that size: its aspect ratio is learned, and an expanded tile whose height
    /// is off by more than a point, or that did not know it before, follows it.
    pub open spec fn source_sized(self, sw: u32, sh: u32) -> Tile {
        if self.fixed_aspect || sw == 0 || sh == 0 {
            self
        } else {
            let t = Tile { aspect: Some((sw, sh)), ..self };
            let off = off_by_a_point(self.height, across(self.width, (sw, sh)));
            if !self.collapsed && (self.aspect is None || off) {
                let h = height_at(self.width, (sw, sh));
                Tile { height: h, expanded: (self.width, h), ..t }
            } else {
                t
            }
        }
    }

    /// A width and a height snapped to the aspect ratio: the width is authoritative.
    pub open spec fn snapped(self, w: u32, h: u32) -> (u32, u32) {
        let width = if w < MIN_W {
            MIN_W
        } else {
            w
        };
        match self.aspect {
            Some(a) => if a.0 > 0 {
                (width, height_at(w, a))
            } else {
                (
                    width,
                    if h < 1 {
                        1
                    } else {
                        h
                    },
                )
            },
            None => (
                width,
                if h < 1 {
                    1
                } else {
                    h
                },
            ),
        }
    }

    /// A frame of that size came in.
    pub open spec fn fed(self, sw: u32, sh: u32) -> Tile {
        let t = self.source_sized(sw, sh);
        if t.frozen {
            t
        } else if t.collapsed {
            Tile { accent: ACCENT_FRAMES, ..t.folded(false) }
        } else {
            t
        }
    }

    /// The opacity went up or down by a tenth, in single precision and within its bounds. A
    /// difference that single precision cannot tell from one is none.
    pub open spec fn faded(self, up: bool) -> Tile {
        let o = cut(
            (if up {
                self.opacity + TENTH
            } else {
                self.opacity - TENTH
            }) as nat,
            1,
            SINGLE as nat,
        );
        let next = if o < FAINTEST {
            FAINTEST
        } else if o > OPAQUE {
            OPAQUE
        } else {
            o as u32
        };
        if magnitude(next - self.opacity) > NOTHING {
            Tile { opacity: next, ..self }
        } else {
            self
        }
    }

    /// A tile that mirrors a whole window: it learns its aspect ratio from the first frame.
    pub fn toplevel(relaunches: bool) -> (r: Tile)
        ensures
            r.wf(),
            r.width == DEFAULT_W && r.height == 270,
            r.aspect is None && !r.fixed_aspect,
            r.expanded == (r.width, r.height),
            !r.collapsed && !r.hovered && !r.frozen && !r.closing,
            r.pointer == (0i64, 0i64) && r.accent == 0 && r.gone_since is None,
            r.opacity == OPAQUE && r.relaunches == relaunches,
    {
        Tile {
            width: DEFAULT_W,
            height: DEFAULT_W * 9 / 16,
            aspect: None,
            fixed_aspect: false,
            expanded: (DEFAULT_W, DEFAULT_W * 9 / 16),
            collapsed: false,
            hovered: false,
            pointer: (0, 0),
            accent: 0,
            gone_since: None,
            opacity: OPAQUE,
            frozen: false,
            closing: false,
            relaunches,
        }
    }

    /// A tile that magnifies a region to `w` by `h` points: it keeps the region's aspect
    /// ratio, and is no narrower than a tile can be.
    pub fn region(w: u32, h: u32, region_w: u32, region_h: u32, relaunches: bool) -> (r: Tile)
        ensures
            r.wf(),
            r.width == if w < MIN_W {
                MIN_W
            } else {
                w
            },
            r.height == if h < 1 {
                1
            } else {
                h
            },
            r.aspect == Some(
                (
                    region_w,
                    if region_h < 1 {
                        1
                    } else {
                        region_h
                    },
                ),
            ),
            r.fixed_aspect,
            r.expanded == (r.width, r.height),
            !r.collapsed && !r.hovered && !r.frozen && !r.closing,
            r.pointer == (0i64, 0i64) && r.accent == 0 && r.gone_since is None,
            r.opacity == OPAQUE && r.relaunches == relaunches,
    {
        let width: u32 = if w < MIN_W {
            MIN_W
        } else {
            w
        };
        let height: u32 = if h < 1 {
            1
        } else {
            h
        };
        let rh: u32 = if region_h < 1 {
            1
        } else {
            region_h
        };
        Tile {
            width,
            height,
            aspect: Some((region_w, rh)),
            fixed_aspect: true,
            expanded: (width, height),
            collapsed: false,
            hovered: false,
            pointer: (0, 0),
            accent: 0,
            gone_since: None,
            opacity: OPAQUE,
            frozen: false,
            closing: false,
            relaunches,
        }
    }

    /// A capture message arrived at `now` milliseconds: note the source's size or demise, and
    /// restore from the badge on activity. Whether the frame is kept and the tile repainted:
    /// frozen, it shows the last frame and drops the ones that come in, but still follows
    /// their size.
    pub fn on_msg<D>(&mut self, m: &PipMsg<D>, now: u64) -> (r: bool)
        ensures
            match m {
                PipMsg::Gone => r && *final(self) == (Tile {
                    gone_since: match old(self).gone_since {
                        Some(t) => Some(t),
                        None => Some(now),
                    },
                    ..*old(self)
                }),
                PipMsg::Shm { w, h, .. } => r == !old(self).frozen && *final(self) == old(self).fed(*w as u32, *h as u32),
                PipMsg::Dmabuf { width, height, .. } => r == !old(self).frozen && *final(self)
                    == old(self).fed(*width, *height),
            },
    {
        match m {
            PipMsg::Gone => {
                if self.gone_since.is_none() {
                    self.gone_since = Some(now);
                }
                return true;
            },
            PipMsg::Shm { w, h, .. } => {
                let sw: u32 = #[verifier::truncate]
                (*w as u32);
                let sh: u32 = #[verifier::truncate]
                (*h as u32);
                self.on_source_size(sw, sh);
            },
            PipMsg::Dmabuf { width, height, .. } => {
                self.on_source_size(*width, *height);
            },
        }
        if self.frozen {
            return false;
        }
        if self.collapsed {
            let _ = self.set_collapsed(false);
            self.accent = ACCENT_FRAMES;
        }
        true
    }

    /// Learn (or update) the source's aspect ratio and, when expanded, keep the tile's height
    /// matching it.
    pub fn on_source_size(&mut self, sw: u32, sh: u32)
        ensures
            *final(self) == old(self).source_sized(sw, sh),
    {
        if self.fixed_aspect || sw == 0 || sh == 0 {
            return;
        }
        let first = self.aspect.is_none();
        self.aspect = Some((sw, sh));
        let (p, q) = wanted(self.width, (sw, sh));
        if !self.collapsed && (first || is_off(self.height, p, q)) {
            let h: u32 = height_for(self.width, (sw, sh));
            self.height = h;
            self.expanded = (self.width, h);
        }
    }

    /// Snap a width and a height to the source's aspect ratio (the width is authoritative).
    pub fn snap(&self, w: u32, h: u32) -> (r: (u32, u32))
        ensures
            r == self.snapped(w, h),
    {
        let width: u32 = if w < MIN_W {
            MIN_W
        } else {
            w
        };
        if let Some(a) = self.aspect {
            if a.0 > 0 {
                return (width, height_for(w, a));
            }
        }
        let height: u32 = if h < 1 {
            1
        } else {
            h
        };
        (width, height)
    }

    /// Collapse to the badge, or open again at the remembered size. What comes back is the
    /// window's new limits, if anything changed.
    pub fn set_collapsed(&mut self, collapsed: bool) -> (r: Option<Limits>)
        ensures
            *final(self) == old(self).folded(collapsed),
            r == if collapsed == old(self).collapsed {
                None
            } else if collapsed {
                Some(Limits { min: (BADGE, BADGE), fixed: true })
            } else {
                Some(Limits { min: min_size(old(self).aspect), fixed: false })
            },
    {
        if collapsed == self.collapsed {
            return None;
        }
        self.collapsed = collapsed;
        if collapsed {
            self.expanded = (self.width, self.height);
            self.width = BADGE;
            self.height = BADGE;
            Some(Limits { min: (BADGE, BADGE), fixed: true })
        } else {
            self.width = self.expanded.0;
            self.height = self.expanded.1;
            Some(Limits { min: min_size_for(self.aspect), fixed: false })
        }
    }

    /// The compositor gave the window a size: a badge stays one, a tile snaps to it.
    pub fn configure(&mut self, size: Option<(u32, u32)>)
        ensures
            *final(self) == match size {
                None => *old(self),
                Some((w, h)) => if old(self).collapsed {
                    old(self).sized(BADGE, BADGE)
                } else {
                    Tile {
                        expanded: old(self).snapped(w, h),
                        ..old(self).sized(old(self).snapped(w, h).0, old(self).snapped(w, h).1)
                    }
                },
            },
    {
        if let Some((w, h)) = size {
            if self.collapsed {
                self.width = BADGE;
                self.height = BADGE;
            } else {
                let (sw, sh) = self.snap(w, h);
                self.width = sw;
                self.height = sh;
                self.expanded = (sw, sh);
            }
        }
    }

    /// A frame was painted: the accent border runs out.
    pub fn painted(&mut self)
        ensures
            *final(self) == (Tile {
                accent: if old(self).accent > 0 {
                    (old(self).accent - 1) as u32
                } else {
                    0
                },
                ..*old(self)
            }),
    {
        if self.accent > 0 {
            self.accent = self.accent - 1;
        }
    }

    /// What a press of the left button at the pointer hits.
    pub open spec fn hit(self) -> Pressed {
        if self.collapsed {
            Pressed::Opened
        } else if self.hovered && in_square(self.pointer, self.width - 28, 6, 22) {
            Pressed::Closed
        } else if self.hovered && in_square(self.pointer, self.width - 56, 6, 22) {
            Pressed::Collapsed
        } else if self.hovered && in_square(self.pointer, self.width - 18, self.height - 18, 18) {
            Pressed::Resize
        } else {
            Pressed::Move
        }
    }

    /// The left button was pressed: the badge opens; else the toolbar's buttons, the grip or
    /// the body are hit.
    pub fn on_press(&mut self) -> (r: Pressed)
        ensures
            r == old(self).hit(),
            *final(self) == match old(self).hit() {
                Pressed::Opened => old(self).folded(false),
                Pressed::Closed => (Tile { closing: true, ..*old(self) }),
                Pressed::Collapsed => old(self).folded(true),
                _ => *old(self),
            },
    {
        if self.collapsed {
            let _ = self.set_collapsed(false);
            return Pressed::Opened;
        }
        let w: i64 = self.width as i64;
        let h: i64 = self.height as i64;
        if self.hovered && within(self.pointer, w - 28, 6, 22) {
            self.closing = true;
            Pressed::Closed
        } else if self.hovered && within(self.pointer, w - 56, 6, 22) {
            let _ = self.set_collapsed(true);
            Pressed::Collapsed
        } else if self.hovered && within(self.pointer, w - 18, h - 18, 18) {
            Pressed::Resize
        } else {
            Pressed::Move
        }
    }

    /// Change the opacity by a tenth. Whether it changed.
    pub fn set_opacity(&mut self, up: bool) -> (r: bool)
        requires
            old(self).wf(),
        ensures
            final(self).wf(),
            *final(self) == old(self).faded(up),
            r == (final(self).opacity != old(self).opacity),
    {
        let exact: u128 = if up {
            self.opacity as u128 + TENTH as u128
        } else {
            self.opacity as u128 - TENTH as u128
        };
        let o: u128 = cut_of(exact, 1, SINGLE);
        let next: u32 = if o < FAINTEST as u128 {
            FAINTEST
        } else if o > OPAQUE as u128 {
            OPAQUE
        } else {
            o as u32
        };
        let apart: u32 = if next < self.opacity {
            self.opacity - next
        } else {
            next - self.opacity
        };
        if apart > NOTHING {
            self.opacity = next;
            true
        } else {
            false
        }
    }

    /// The wheel turned by so much: up is more opaque. Whether the opacity changed.
    pub fn on_wheel(&mut self, vertical: i32) -> (r: bool)
        requires
            old(self).wf(),
        ensures
            final(self).wf(),
            *final(self) == if vertical < 0 {
                old(self).faded(true)
            } else if vertical > 0 {
                old(self).faded(false)
            } else {
                *old(self)
            },
            r == (final(self).opacity != old(self).opacity),
    {
        if vertical < 0 {
            self.set_opacity(true)
        } else if vertical > 0 {
            self.set_opacity(false)
        } else {
            false
        }
    }

    /// The tile after a key.
    pub open spec fn keyed(self, key: u32) -> Tile {
        if key == KEY_ESCAPE || key == KEY_Q {
            Tile { closing: true, ..self }
        } else if key == KEY_SPACE {
            Tile { frozen: !self.frozen, ..self }
        } else if key == KEY_C {
            self.folded(!self.collapsed)
        } else if key == KEY_PLUS || key == KEY_EQUAL || key == KEY_KP_ADD {
            self.faded(true)
        } else if key == KEY_MINUS || key == KEY_KP_SUBTRACT {
            self.faded(false)
        } else if key == KEY_R && self.relaunches {
            Tile { closing: true, ..self }
        } else {
            self
        }
    }

    /// What a key asks for beyond what it does to the tile.
    pub open spec fn asks(self, key: u32) -> Keyed {
        if key == KEY_SPACE {
            Keyed::Repaint
        } else if key == KEY_C {
            Keyed::Resized
        } else if key == KEY_PLUS || key == KEY_EQUAL || key == KEY_KP_ADD || key == KEY_MINUS
            || key == KEY_KP_SUBTRACT {
            if self.keyed(key).opacity != self.opacity {
                Keyed::Repaint
            } else {
                Keyed::Nothing
            }
        } else if key == KEY_R && self.relaunches {
            Keyed::Relaunch
        } else {
            Keyed::Nothing
        }
    }

    /// A key was pressed: `Esc` and `q` close, space freezes, `c` collapses, `+` and `-`
    /// change the opacity, `r` re-picks the source by running the program again.
    pub fn on_key(&mut self, key: u32) -> (r: Keyed)
        requires
            old(self).wf(),
        ensures
            final(self).wf(),
            *final(self) == old(self).keyed(key),
            r == old(self).asks(key),
    {
        if key == KEY_ESCAPE || key == KEY_Q {
            self.closing = true;
            Keyed::Nothing
        } else if key == KEY_SPACE {
            self.frozen = !self.frozen;
            Keyed::Repaint
        } else if key == KEY_C {
            let _ = self.set_collapsed(!self.collapsed);
            Keyed::Resized
        } else if key == KEY_PLUS || key == KEY_EQUAL || key == KEY_KP_ADD {
            if self.set_opacity(true) {
                Keyed::Repaint
            } else {
                Keyed::Nothing
            }
        } else if key == KEY_MINUS || key == KEY_KP_SUBTRACT {
            if self.set_opacity(false) {
                Keyed::Repaint
            } else {
                Keyed::Nothing
            }
        } else if key == KEY_R && self.relaunches {
            self.closing = true;
            Keyed::Relaunch
        } else {
            Keyed::Nothing
        }
    }

    /// Whether the mirror ends: it was closed, or its source has been gone for long enough.
    pub fn over(&self, now: u64) -> (r: bool)
        ensures
            r == (self.closing || (self.gone_since matches Some(t) && now - t >= GONE_LINGER)),
    {
        if self.closing {
            return true;
        }
        match self.gone_since {
            Some(t) => now >= t && now - t >= GONE_LINGER,
            None => false,
        }
    }
}

/// Collapsing and opening again gives the tile back its size.
pub proof fn opening_restores_the_size(t: Tile)
    requires
        !t.collapsed,
    ensures
        t.folded(true).folded(false).width == t.width,
        t.folded(true).folded(false).height == t.height,
        !t.folded(true).folded(false).collapsed,
{
}

/// A frozen tile follows its source's size and nothing else, whatever comes in.
pub proof fn a_frozen_tile_keeps_its_picture(t: Tile, sw: u32, sh: u32)
    requires
        t.frozen,
    ensures
        t.fed(sw, sh) == t.source_sized(sw, sh),
        t.fed(sw, sh).collapsed == t.collapsed,
{
}

/// Activity while collapsed pops the tile back open.
pub proof fn activity_opens_the_badge(t: Tile, sw: u32, sh: u32)
    requires
        t.collapsed,
        !t.frozen,
    ensures
        !t.fed(sw, sh).collapsed,
        t.fed(sw, sh).accent == ACCENT_FRAMES,
        (t.fed(sw, sh).width, t.fed(sw, sh).height) == t.expanded,
{
}

/// A region's aspect ratio is never retuned by the frames.
pub proof fn a_region_keeps_its_aspect(t: Tile, sw: u32, sh: u32)
    requires
        t.fixed_aspect,
    ensures
        t.source_sized(sw, sh) == t,
{
}

/// The width is authoritative: a tile that knows its aspect ratio takes its height from the
/// width alone, and a size that was snapped stays as it is.
pub proof fn the_width_is_authoritative(t: Tile, w: u32, h: u32, k: u32)
    requires
        t.aspect matches Some(a) && a.0 > 0,
    ensures
        t.snapped(w, h) == t.snapped(w, k),
        w >= MIN_W ==> t.snapped(t.snapped(w, h).0, t.snapped(w, h).1) == t.snapped(w, h),
{
}

/// What is drawn of the source.
#[derive(Clone, Copy, Debug, PartialEq, Eq, Structural)]
pub enum Shown {
    /// The frame on the GPU.
    Native,
    /// The frame in memory.
    Texture,
    /// The app's icon.
    Icon,
    /// A notice that nothing is there yet.
    Loading,
}

/// Which pictures there are of the source.
#[derive(Clone, Copy, Debug, PartialEq, Eq, Structural)]
pub struct Content {
    pub native: bool,
    pub texture: bool,
    pub icon: bool,
    pub gone: bool,
}

impl Content {
    /// A message was taken up: a frame in memory is authoritative from then on, one on the
    /// GPU if it could be imported. Whether there is a frame in memory to upload.
    pub fn pump<D>(&mut self, m: &PipMsg<D>, imported: bool) -> (r: bool)
        ensures
            match m {
                PipMsg::Shm { w, h, .. } => r == (*w > 0 && *h > 0) && *final(self) == if *w > 0
                    && *h > 0 {
                    Content { native: false, texture: true, ..*old(self) }
                } else {
                    *old(self)
                },
                PipMsg::Dmabuf { .. } => !r && *final(self) == (Content {
                    native: old(self).native || imported,
                    ..*old(self)
                }),
                PipMsg::Gone => !r && *final(self) == (Content { gone: true, ..*old(self) }),
            },
    {
        match m {
            PipMsg::Shm { w, h, .. } => {
                if *w > 0 && *h > 0 {
                    self.texture = true;
                    self.native = false;
                    true
                } else {
                    false
                }
            },
            PipMsg::Dmabuf { .. } => {
                if imported {
                    self.native = true;
                }
                false
            },
            PipMsg::Gone => {
                self.gone = true;
                false
            },
        }
    }

    /// What is drawn: the frame on the GPU if there is one, else the one in memory, else the
    /// icon, else a notice.
    pub fn tex(&self) -> (r: Shown)
        ensures
            r == if self.native {
                Shown::Native
            } else if self.texture {
                Shown::Texture
            } else if self.icon {
                Shown::Icon
            } else {
                Shown::Loading
            },
    {
        if self.native {
            Shown::Native
        } else if self.texture {
            Shown::Texture
        } else if self.icon {
            Shown::Icon
        } else {
            Shown::Loading
        }
    }
}

/// The tile's buttons lie in its upper corner to the right, the one that closes it outermost,
/// and the grip in the lower; they work under a pointer that is over the tile, and a badge opens
/// wherever it is pressed.
pub proof fn buttons_lie_in_the_corners(t: &mut Tile, r: Pressed)
    requires
        call_ensures(Tile::on_press, (t,), r),
    ensures
        ({
            let (x, y) = (old(t).pointer.0, old(t).pointer.1);
            let (w, h) = (old(t).width * 256, old(t).height * 256);
            let high = 6 * 256 <= y <= 28 * 256;
            let close = high && w - 28 * 256 <= x <= w - 6 * 256;
            let fold = high && w - 56 * 256 <= x <= w - 34 * 256;
            let grip = w - 18 * 256 <= x <= w && h - 18 * 256 <= y <= h;
            &&& r is Opened <==> old(t).collapsed
            &&& r is Closed <==> !old(t).collapsed && old(t).hovered && close
            &&& r is Collapsed <==> !old(t).collapsed && old(t).hovered && fold && !close
            &&& r is Resize <==> !old(t).collapsed && old(t).hovered && grip && !fold && !close
            &&& final(t).closing <==> old(t).closing || r is Closed
            &&& final(t).collapsed <==> r is Collapsed
        }),
{
}

/// A badge is a square of its own size.
pub proof fn a_badge_is_square(t: &mut Tile, r: Option<Limits>)
    requires
        call_ensures(Tile::set_collapsed, (t, true), r),
        !old(t).collapsed,
    ensures
        final(t).collapsed,
        final(t).width == final(t).height == 132,
        final(t).expanded == (old(t).width, old(t).height),
        r matches Some(l) && l.fixed && l.min == (132u32, 132u32),
{
}

/// A tile keeps its source's shape: its height is to its width as the source's is to the
/// source's, to the nearest point and to what single precision tells apart.
pub proof fn a_tile_keeps_the_shape_of_its_source(
    t: Tile,
    w: u32,
    h: u32,
    sw: u32,
    sh: u32,
    r: (u32, u32),
)
    requires
        call_ensures(Tile::snap, (&t, w, h), r),
        t.aspect == Some((sw, sh)),
        0 < sw < 0x100_0000,
        0 < sh < 0x100_0000,
        0 < w < 0x100_0000,
    ensures
        r.0 == (if w < 120 {
            120
        } else {
            w
        }),
        r.1 >= 1,
        r.1 == 1 || 2 * 0xff_ffff * (r.1 * sw) <= 2 * 0x100_0001 * (w * sh) + 0xff_ffff * sw,
        r.1 == u32::MAX || 2 * 0x100_0001 * (r.1 * sw) + 0x100_0001 * sw >= 2 * 0xff_ffff * (w
            * sh),
{
    let least = SINGLE as nat;
    let a = (sw, sh);
    crate::rounding::whole_numbers_are_near(sw as nat, least);
    crate::rounding::whole_numbers_are_near(sh as nat, least);
    crate::rounding::whole_numbers_are_near(w as nat, least);
    let (p, q) = ratio(a);
    crate::rounding::quotients_are_near(sw as nat, sh as nat, least);
    let wq = w as nat * q;
    assert(q > 0);
    let e = 0x100_0000int;
    let (fw, fh, fp, fq) = (sw as int, sh as int, p as int, q as int);
    assert(p > 0) by {
        if p == 0 {
            assert(p * sh as nat == 0) by (nonlinear_arith)
                requires
                    p == 0,
            ;
            assert(e * (fw * fq) <= fw * fq && fw * fq > 0) by (nonlinear_arith)
                requires
                    e * crate::rounding::apart(p * sh as nat, sw as nat * q) <= fw * fq,
                    crate::rounding::apart(p * sh as nat, sw as nat * q) == fw * fq,
                    fw > 0,
                    fq > 0,
            ;
            assert(false) by (nonlinear_arith)
                requires
                    e * (fw * fq) <= fw * fq,
                    fw * fq > 0,
                    e == 0x100_0000,
            ;
        }
    }
    crate::rounding::quotients_are_near(wq, p, least);
    let (m, n) = nearest(wq, p, least);
    assert(across(w, a) == (m, n));
    let (fm, fn_) = (m as int, n as int);
    near_means(fp * fh, fw * fq, e);
    near_means(fm * fp, (w as int * fq) * fn_, e);
    shapes(fw, fh, fp, fq, fm, fn_, w as int, e);
    let k = half_up((m, n)) as int;
    assert(2 * k * fn_ <= 2 * fm + fn_ && 2 * fm - fn_ <= 2 * k * fn_) by (nonlinear_arith)
        requires
            k == (2 * fm + fn_) / (2 * fn_),
            fn_ > 0,
            fm >= 0,
    ;
    heights(fw, fh, fm, fn_, w as int, k, e);
    assert(r.1 == height_at(w, a));
    let rr = r.1 as int;
    if k >= 1 && k <= u32::MAX {
        assert(rr == k);
    } else if k < 1 {
        assert(rr == 1);
        assert(2 * (e + 1) * (rr * fw) >= 2 * (e + 1) * (k * fw)) by (nonlinear_arith)
            requires
                rr >= k,
                fw > 0,
                e > 0,
        ;
    } else {
        assert(rr <= k);
        assert(2 * (e - 1) * (rr * fw) <= 2 * (e - 1) * (k * fw)) by (nonlinear_arith)
            requires
                rr <= k,
                fw > 0,
                e > 1,
        ;
    }
}

proof fn near_means(x: int, y: int, e: int)
    requires
        x >= 0,
        y >= 0,
        e > 0,
        e * crate::rounding::apart(x as nat, y as nat) <= y,
    ensures
        (e - 1) * y <= e * x <= (e + 1) * y,
{
    let d = crate::rounding::apart(x as nat, y as nat) as int;
    assert((e - 1) * y == e * y - y && (e + 1) * y == e * y + y) by (nonlinear_arith);
    assert(e * (x - y) == e * x - e * y && e * (y - x) == e * y - e * x) by (nonlinear_arith);
    assert(e * d >= 0) by (nonlinear_arith)
        requires
            e > 0,
            d >= 0,
    ;
    if x < y {
        assert(d == y - x);
    } else {
        assert(d == x - y);
    }
}

/// From `p / q` near `sw / sh` and `m / n` near `w * q / p`, that `m / n` is near
/// `w * sh / sw`.
proof fn shapes(sw: int, sh: int, p: int, q: int, m: int, n: int, w: int, e: int)
    requires
        sw > 0,
        sh > 0,
        p > 0,
        q > 0,
        m >= 0,
        n > 0,
        w > 0,
        e > 1,
        (e - 1) * (sw * q) <= e * (p * sh) <= (e + 1) * (sw * q),
        (e - 1) * ((w * q) * n) <= e * (m * p) <= (e + 1) * ((w * q) * n),
    ensures
        (e - 1) * (m * sw) <= (e + 1) * (w * sh * n),
        (e - 1) * (w * sh * n) <= (e + 1) * (m * sw),
{
    let (x, y) = (m * sw, w * sh * n);
    // m times the first pair, sh times the second: both hold m * p * sh.
    let z = e * (m * p * sh);
    assert((e - 1) * (x * q) <= z <= (e + 1) * (x * q)) by {
        assert(m * ((e - 1) * (sw * q)) == (e - 1) * (x * q)) by (nonlinear_arith)
            requires
                x == m * sw,
        ;
        assert(m * ((e + 1) * (sw * q)) == (e + 1) * (x * q)) by (nonlinear_arith)
            requires
                x == m * sw,
        ;
        assert(m * (e * (p * sh)) == z) by (nonlinear_arith)
            requires
                z == e * (m * p * sh),
        ;
        let (a, b, c) = ((e - 1) * (sw * q), e * (p * sh), (e + 1) * (sw * q));
        assert(m * a <= m * b <= m * c) by (nonlinear_arith)
            requires
                a <= b <= c,
                m >= 0,
        ;
    }
    assert((e - 1) * (y * q) <= z <= (e + 1) * (y * q)) by {
        assert(sh * ((e - 1) * ((w * q) * n)) == (e - 1) * (y * q)) by (nonlinear_arith)
            requires
                y == w * sh * n,
        ;
        assert(sh * ((e + 1) * ((w * q) * n)) == (e + 1) * (y * q)) by (nonlinear_arith)
            requires
                y == w * sh * n,
        ;
        assert(sh * (e * (m * p)) == z) by (nonlinear_arith)
            requires
                z == e * (m * p * sh),
        ;
        let (a, b, c) = ((e - 1) * ((w * q) * n), e * (m * p), (e + 1) * ((w * q) * n));
        assert(sh * a <= sh * b <= sh * c) by (nonlinear_arith)
            requires
                a <= b <= c,
                sh > 0,
        ;
    }
    assert((e - 1) * (x * q) == ((e - 1) * x) * q && (e + 1) * (y * q) == ((e + 1) * y) * q)
        by (nonlinear_arith);
    assert((e - 1) * (y * q) == ((e - 1) * y) * q && (e + 1) * (x * q) == ((e + 1) * x) * q)
        by (nonlinear_arith);
    let (a, b, c, d) = ((e - 1) * x, (e + 1) * y, (e - 1) * y, (e + 1) * x);
    assert(a <= b) by (nonlinear_arith)
        requires
            a * q <= b * q,
            q > 0,
    ;
    assert(c <= d) by (nonlinear_arith)
        requires
            c * q <= d * q,
            q > 0,
    ;
}

proof fn heights(sw: int, sh: int, m: int, n: int, w: int, k: int, e: int)
    requires
        sw > 0,
        sh > 0,
        n > 0,
        w > 0,
        e > 1,
        (e - 1) * (m * sw) <= (e + 1) * (w * sh * n),
        (e - 1) * (w * sh * n) <= (e + 1) * (m * sw),
        2 * k * n <= 2 * m + n,
        2 * m - n <= 2 * k * n,
    ensures
        2 * (e - 1) * (k * sw) <= 2 * (e + 1) * (w * sh) + (e - 1) * sw,
        2 * (e - 1) * (w * sh) <= 2 * (e + 1) * (k * sw) + (e + 1) * sw,
{
    let (ks, ws) = (k * sw, w * sh);
    let ms = m * sw;
    assert(2 * (ks * n) <= 2 * ms + n * sw && 2 * ms - n * sw <= 2 * (ks * n)) by (nonlinear_arith)
        requires
            2 * k * n <= 2 * m + n,
            2 * m - n <= 2 * k * n,
            sw > 0,
            ks == k * sw,
            ms == m * sw,
    ;
    let (u, v) = (e - 1, e + 1);
    let (kn, ns, wn) = (ks * n, n * sw, ws * n);
    assert(u * ms <= v * wn && u * wn <= v * ms);
    assert(2 * (u * kn) <= 2 * (v * wn) + u * ns) by (nonlinear_arith)
        requires
            2 * kn <= 2 * ms + ns,
            u * ms <= v * wn,
            u > 0,
    ;
    assert(2 * (u * wn) <= 2 * (v * kn) + v * ns) by (nonlinear_arith)
        requires
            2 * ms - ns <= 2 * kn,
            u * wn <= v * ms,
            v > 0,
    ;
    let (a, b) = (2 * u * ks, 2 * v * ws + u * sw);
    assert(a * n == 2 * (u * kn) && b * n == 2 * (v * wn) + u * ns) by (nonlinear_arith)
        requires
            a == 2 * u * ks,
            b == 2 * v * ws + u * sw,
            kn == ks * n,
            wn == ws * n,
            ns == n * sw,
    ;
    let (c, d) = (2 * u * ws, 2 * v * ks + v * sw);
    assert(c * n == 2 * (u * wn) && d * n == 2 * (v * kn) + v * ns) by (nonlinear_arith)
        requires
            c == 2 * u * ws,
            d == 2 * v * ks + v * sw,
            kn == ks * n,
            wn == ws * n,
            ns == n * sw,
    ;
    assert(a <= b) by (nonlinear_arith)
        requires
            a * n <= b * n,
            n > 0,
    ;
    assert(c <= d) by (nonlinear_arith)
        requires
            c * n <= d * n,
            n > 0,
    ;
}

/// Turning the wheel up makes the tile more opaque by a tenth, down less, and it stays between a
/// fifth and opaque.
pub proof fn the_wheel_turns_the_opacity(t: &mut Tile, vertical: i32, r: bool)
    requires
        call_ensures(Tile::on_wheel, (t, vertical), r),
        old(t).wf(),
    ensures
        ({
            let (a, b) = (old(t).opacity as int, final(t).opacity as int);
            let full = 0x800_0000int;
            &&& 5 * b >= full
            &&& b <= full
            &&& vertical == 0 ==> b == a
            &&& vertical < 0 ==> b >= a && 10 * (b - a) <= full + 200 && (b >= full - 16 || 10 * (b
                - a) >= full - 200)
            &&& vertical > 0 ==> b <= a && 10 * (a - b) <= full + 200 && (5 * (b - 32) <= full || 10
                * (a - b) >= full - 200)
            &&& r == (a != b)
            &&& final(t).width == old(t).width && final(t).collapsed == old(t).collapsed
        }),
{
    let a = old(t).opacity as int;
    let least = SINGLE as nat;
    crate::rounding::whole_numbers_are_near((a + TENTH) as nat, least);
    crate::rounding::whole_numbers_are_near((a - TENTH) as nat, least);
    single_error((a + TENTH) as nat, cut((a + TENTH) as nat, 1, least));
    single_error((a - TENTH) as nat, cut((a - TENTH) as nat, 1, least));
}

proof fn single_error(n: nat, c: nat)
    requires
        n < 0x1000_0000,
        2 * (SINGLE as nat) * crate::rounding::apart(c, n) <= n,
    ensures
        n - 16 <= c <= n + 16,
{
    let d = crate::rounding::apart(c, n) as int;
    assert(d <= 16) by (nonlinear_arith)
        requires
            2 * 0x80_0000 * d <= n,
            n < 0x1000_0000,
            d >= 0,
    ;
}

/// What the keys do, by their keysyms: Escape and q close, the space bar freezes and goes on, c
/// folds and unfolds, and r closes where the tile can be started anew.
pub proof fn keys_do_what_they_are_for(t: &mut Tile, key: u32, r: Keyed)
    requires
        call_ensures(Tile::on_key, (t, key), r),
    ensures
        final(t).closing <==> old(t).closing || key == 0xff1b || key == 0x71 || (key == 0x72
            && old(t).relaunches),
        final(t).frozen == (if key == 0x20 {
            !old(t).frozen
        } else {
            old(t).frozen
        }),
        final(t).collapsed == (if key == 0x63 {
            !old(t).collapsed
        } else {
            old(t).collapsed
        }),
        r == Keyed::Relaunch <==> key == 0x72 && old(t).relaunches,
        r == Keyed::Resized <==> key == 0x63,
        final(t).opacity != old(t).opacity ==> key == 0x2b || key == 0x3d || key == 0xffab || key
            == 0x2d || key == 0xffad,
{
}

/// The plus keys and the minus keys turn the opacity as the wheel does.
pub proof fn plus_and_minus_turn_the_opacity(
    t: &mut Tile,
    u: &mut Tile,
    key: u32,
    vertical: i32,
    a: Keyed,
    b: bool,
)
    requires
        call_ensures(Tile::on_key, (t, key), a),
        call_ensures(Tile::on_wheel, (u, vertical), b),
        *old(t) == *old(u),
        (vertical < 0 && (key == 0x2b || key == 0x3d || key == 0xffab)) || (vertical > 0 && (key
            == 0x2d || key == 0xffad)),
    ensures
        *final(t) == *final(u),
        a == (if b {
            Keyed::Repaint
        } else {
            Keyed::Nothing
        }),
{
}

/// A tile whose source is gone stays a while, counted from when it went.
pub proof fn a_tile_outlives_its_source_by_a_while<D>(
    t: &mut Tile,
    u: &mut Tile,
    first: u64,
    later: u64,
    now: u64,
    a: bool,
    b: bool,
    r: bool,
)
    requires
        !old(t).closing,
        old(t).gone_since is None,
        call_ensures(Tile::on_msg::<D>, (t, &PipMsg::Gone, first), a),
        *old(u) == *final(t),
        call_ensures(Tile::on_msg::<D>, (u, &PipMsg::Gone, later), b),
        call_ensures(Tile::over, (final(u), now), r),
    ensures
        r <==> now - first >= 1400,
{
}

/// A frame is drawn from where it came last, and the icon only while there is none.
pub proof fn the_frame_is_drawn_over_the_icon(c: Content, r: Shown)
    requires
        call_ensures(Content::tex, (&c,), r),
    ensures
        r is Native <==> c.native,
        r is Texture <==> c.texture && !c.native,
        r is Icon <==> c.icon && !c.texture && !c.native,
        r is Loading <==> !c.icon && !c.texture && !c.native,
{
}

/// A tile can be made as narrow as its least width, at the height that its shape asks for there;
/// without a shape the height is that of a wide screen.
pub proof fn the_least_size_has_the_shape(
    t: Tile,
    a: Aspect,
    r: (u32, u32),
    s: (u32, u32),
    none: (u32, u32),
)
    requires
        a.0 > 0,
        t.aspect == Some(a),
        call_ensures(min_size_for, (Some(a),), r),
        call_ensures(min_size_for, (None,), none),
        call_ensures(Tile::snap, (&t, 120, 0), s),
    ensures
        r == s,
        r.0 == 120,
        none.0 == 120,
        16 * none.1 <= 9 * 120 < 16 * (none.1 + 1),
{
}

/// A tile starts in the shape of a wide screen, or in that of its region, open and opaque.
pub proof fn a_tile_starts_open(
    relaunches: bool,
    a: Tile,
    w: u32,
    h: u32,
    rw: u32,
    rh: u32,
    b: Tile,
)
    requires
        call_ensures(Tile::toplevel, (relaunches,), a),
        call_ensures(Tile::region, (w, h, rw, rh, relaunches), b),
    ensures
        9 * a.width == 16 * a.height,
        !a.collapsed && !b.collapsed && !a.frozen && !b.frozen && !a.closing && !b.closing,
        a.opacity == b.opacity == 0x800_0000,
        b.width >= 120 && (w >= 120 ==> b.width == w),
        b.height >= 1 && (h >= 1 ==> b.height == h),
        b.fixed_aspect && !a.fixed_aspect,
        b.aspect matches Some(s) && s.0 == rw && (rh >= 1 ==> s.1 == rh) && s.1 >= 1,
        a.expanded == (a.width, a.height) && b.expanded == (b.width, b.height),
{
}

/// What is captured is shown as it came; the end of the source, or never having reached it, is
/// told last; and with nobody to hear it, nothing is.
pub proof fn what_is_captured_is_shown_as_it_came<D>(happened: Happened<D>, r: Next<D>)
    requires
        call_ensures(capture_step::<D>, (happened,), r),
    ensures
        r is Last <==> happened is Unreachable || happened is Ended,
        r is Stop <==> happened is Unheard,
        happened matches Happened::Shm(img) ==> (r matches Next::Send(PipMsg::Shm { w, h, rgba })
            && w == img.width && h == img.height && rgba@ == img.rgba@),
        happened matches Happened::Dmabuf { frame, width, height } ==> (r matches Next::Send(
            PipMsg::Dmabuf { frame: f, width: a, height: b },
        ) && f == frame && a == width && b == height),
{
}

/// A tile takes the size it is given, in its shape; a badge keeps its own, and the tile the size
/// it will open to.
pub proof fn a_badge_keeps_its_size(t: &mut Tile, w: u32, h: u32, s: (u32, u32))
    requires
        call_ensures(Tile::configure, (t, Some((w, h))), ()),
        call_ensures(Tile::snap, (old(t), w, h), s),
    ensures
        old(t).collapsed ==> final(t).width == 132 && final(t).height == 132 && final(t).expanded
            == old(t).expanded,
        !old(t).collapsed ==> (final(t).width, final(t).height) == s && final(t).expanded == s,
        final(t).collapsed == old(t).collapsed,
{
}

/// A source of another size gives the tile its shape, at the width that the tile has.
pub proof fn a_source_gives_the_tile_its_shape(t: &mut Tile, sw: u32, sh: u32)
    requires
        call_ensures(Tile::on_source_size, (t, sw, sh), ()),
        !old(t).fixed_aspect,
    ensures
        final(t).width == old(t).width,
        sw > 0 && sh > 0 ==> final(t).aspect == Some((sw, sh)),
        sw == 0 || sh == 0 ==> *final(t) == *old(t),
        sw > 0 && sh > 0 && !old(t).collapsed && old(t).aspect is None ==> final(t).expanded == (
            final(t).width,
            final(t).height,
        ) && final(t).height == height_at(old(t).width, (sw, sh)),
        old(t).collapsed ==> final(t).height == old(t).height && final(t).expanded == old(
            t).expanded,
{
}

/// The accent of a tile that came back fades frame by frame and is then gone.
pub proof fn the_accent_fades(t: &mut Tile)
    requires
        call_ensures(Tile::painted, (t,), ()),
    ensures
        old(t).accent > 0 ==> final(t).accent + 1 == old(t).accent,
        old(t).accent == 0 ==> final(t).accent == 0,
        final(t).width == old(t).width && final(t).opacity == old(t).opacity,
{
}

} // verus!
