//! The interactive frozen-screen overlay: what dragging, clicking and typing on it means.
//!
//! Each output has a surface that shows its frozen capture. Coordinates are tracked in the
//! global logical space so they span outputs, in 256ths of a point, which is what a pointer
//! position is given in.

use crate::capture::{clamp_i32, clamp_u32, magnitude, rounded, to_i32, to_u32};
use crate::image::{cropped, offset_in_bounds, CapturedImage};
use crate::keys::{KEY_ESCAPE, KEY_KP_ENTER, KEY_RETURN};
use crate::region::Region;
use crate::rounding::{
    cut, cut_of, in_single, nearest, nearest_of, nearest_stays_below, products_are_near, single,
    SINGLE,
};
use crate::text::{decimal, hex, push_char, push_decimal, push_hex, same, views};
use vstd::prelude::*;
use vstd::string::*;

verus! {

/// What the frozen overlay collects from the user.
#[derive(Clone, Copy, Debug, PartialEq, Eq, Structural)]
pub enum Mode {
    /// Drag a rectangle: the region selector.
    Region,
    /// Move and click to pick a single pixel: the colour picker, with a magnifying loupe and
    /// a live hex readout.
    Point,
    /// Magnify the frozen screen around the cursor; there is no selection to confirm.
    Magnify,
}

/// The overlay's result, in global logical coordinates.
#[derive(Clone, Copy, Debug, PartialEq, Eq, Structural)]
pub enum Outcome {
    Region(Region),
    Point { x: i32, y: i32 },
}

/// One output's surface: its place in the global logical space, and its size in points once
/// it is configured.
#[derive(Clone, Copy, Debug, PartialEq, Eq, Structural)]
pub struct Surface {
    pub logical_x: i32,
    pub logical_y: i32,
    pub width: u32,
    pub height: u32,
}

/// A place in the global logical space, in 256ths of a point.
pub type Place = (i64, i64);

/// What the pointer did, and on which surface; its position there in 256ths of a point.
#[derive(Clone, Copy, Debug, PartialEq, Eq, Structural)]
pub enum PointerEvent {
    Enter { surface: usize, x: i32, y: i32 },
    Leave,
    Motion { surface: usize, x: i32, y: i32 },
    /// The left button was pressed.
    Press { surface: usize, x: i32, y: i32 },
    /// The left button was released.
    Release { surface: usize, x: i32, y: i32 },
}

/// The overlay's state.
pub struct Freeze {
    /// Which interaction the overlay is running.
    pub mode: Mode,
    /// The surfaces, one per output.
    pub surfaces: Vec<Surface>,
    /// Live pointer position, for the crosshair and the hint.
    pub pointer: Option<Place>,
    /// Drag anchor and current point (region mode).
    pub start: Option<Place>,
    pub cur: Option<Place>,
    /// The overlay must be redrawn on all surfaces.
    pub dirty: bool,
    /// Resolved result (on confirm) and whether the loop should exit.
    pub result: Option<Outcome>,
    pub done: bool,
}

/// Within what pointer positions on outputs can be.
pub open spec fn reachable(p: Place) -> bool {
    -0x100_0000_0000 <= p.0 <= 0x100_0000_0000 && -0x100_0000_0000 <= p.1 <= 0x100_0000_0000
}

/// The overlay's state, as it is spoken of.
pub struct Frozen {
    pub mode: Mode,
    pub surfaces: Seq<Surface>,
    pub pointer: Option<Place>,
    pub start: Option<Place>,
    pub cur: Option<Place>,
    pub dirty: bool,
    pub result: Option<Outcome>,
    pub done: bool,
}

impl View for Freeze {
    type V = Frozen;

    open spec fn view(&self) -> Frozen {
        Frozen {
            mode: self.mode,
            surfaces: self.surfaces@,
            pointer: self.pointer,
            start: self.start,
            cur: self.cur,
            dirty: self.dirty,
            result: self.result,
            done: self.done,
        }
    }
}

/// The whole number at or below a coordinate's points.
pub open spec fn floored(n: int) -> int {
    n / 256
}

/// The rectangle between two corners: its top-left is rounded down, its size to the nearest.
pub open spec fn dragged(a: Place, b: Place) -> Region {
    let x0 = if a.0 <= b.0 {
        a.0
    } else {
        b.0
    };
    let x1 = if a.0 <= b.0 {
        b.0
    } else {
        a.0
    };
    let y0 = if a.1 <= b.1 {
        a.1
    } else {
        b.1
    };
    let y1 = if a.1 <= b.1 {
        b.1
    } else {
        a.1
    };
    Region {
        x: to_i32(floored(x0 as int)),
        y: to_i32(floored(y0 as int)),
        w: to_u32(rounded(x1 - x0, 256)),
        h: to_u32(rounded(y1 - y0, 256)),
    }
}

/// The pixel-sized point nearest to a place.
pub open spec fn picked(p: Place) -> Outcome {
    Outcome::Point { x: to_i32(rounded(p.0 as int, 256)), y: to_i32(rounded(p.1 as int, 256)) }
}

impl Frozen {
    /// Places are ones a pointer can reach, and the result is of the kind the mode asks for.
    pub open spec fn wf(self) -> bool {
        &&& self.pointer matches Some(p) ==> reachable(p)
        &&& self.start matches Some(p) ==> reachable(p)
        &&& self.cur matches Some(p) ==> reachable(p)
        &&& self.result matches Some(o) ==> match o {
            Outcome::Region(r) => self.mode == Mode::Region && r.w > 0 && r.h > 0,
            Outcome::Point { .. } => self.mode == Mode::Point,
        }
    }

    /// The place of a position on a surface, if the surface is one of the overlay's.
    pub open spec fn global(self, surface: usize, x: i32, y: i32) -> Option<Place> {
        if surface < self.surfaces.len() {
            let s = self.surfaces[surface as int];
            Some(((s.logical_x * 256 + x) as i64, (s.logical_y * 256 + y) as i64))
        } else {
            None
        }
    }

    /// The rectangle of the drag, if there is one with an area.
    pub open spec fn selection(self) -> Option<Region> {
        match (self.start, self.cur) {
            (Some(a), Some(b)) => if dragged(a, b).w > 0 && dragged(a, b).h > 0 {
                Some(dragged(a, b))
            } else {
                None
            },
            _ => None,
        }
    }

    /// A drag ended: its rectangle is the result; without an area it is a click, and the
    /// overlay keeps waiting.
    pub open spec fn let_go(self) -> Frozen {
        match self.selection() {
            Some(r) => Frozen { result: Some(Outcome::Region(r)), done: true, ..self },
            None => Frozen { start: None, cur: None, dirty: true, ..self },
        }
    }

    /// The pointer did something.
    pub open spec fn after_pointer(self, e: PointerEvent) -> Frozen {
        match e {
            PointerEvent::Enter { surface, x, y } => Frozen {
                pointer: self.global(surface, x, y),
                dirty: true,
                ..self
            },
            PointerEvent::Leave => Frozen { pointer: None, dirty: true, ..self },
            PointerEvent::Press { surface, x, y } => match (
                self.mode,
                self.global(surface, x, y),
            ) {
                (Mode::Region, Some(g)) => Frozen {
                    start: Some(g),
                    cur: Some(g),
                    pointer: Some(g),
                    dirty: true,
                    ..self
                },
                (Mode::Point, Some(g)) => Frozen { result: Some(picked(g)), done: true, ..self },
                _ => self,
            },
            PointerEvent::Motion { surface, x, y } => match self.global(surface, x, y) {
                Some(g) => Frozen {
                    pointer: Some(g),
                    cur: if self.mode == Mode::Region && self.start is Some {
                        Some(g)
                    } else {
                        self.cur
                    },
                    dirty: true,
                    ..self
                },
                None => self,
            },
            PointerEvent::Release { surface, x, y } => if self.mode == Mode::Region {
                Frozen {
                    cur: match self.global(surface, x, y) {
                        Some(g) => Some(g),
                        None => self.cur,
                    },
                    ..self
                }.let_go()
            } else {
                self
            },
        }
    }

    /// A key was pressed: Escape cancels, Enter confirms what there is to confirm.
    pub open spec fn after_key(self, keysym: u32) -> Frozen {
        if keysym == KEY_ESCAPE {
            Frozen { result: None, done: true, ..self }
        } else if keysym == KEY_RETURN || keysym == KEY_KP_ENTER {
            match self.mode {
                Mode::Region => match self.selection() {
                    Some(r) => Frozen { result: Some(Outcome::Region(r)), done: true, ..self },
                    None => self,
                },
                Mode::Point => match self.pointer {
                    Some(g) => Frozen { result: Some(picked(g)), done: true, ..self },
                    None => self,
                },
                Mode::Magnify => self,
            }
        } else {
            self
        }
    }
}

fn floor_points(n: i64) -> (r: i128)
    requires
        -0x100_0000_0000 <= n <= 0x100_0000_0000,
    ensures
        r == floored(n as int),
{
    if n >= 0 {
        (n / 256) as i128
    } else {
        let m: i64 = -n;
        let q: i64 = (m + 255) / 256;
        -(q as i128)
    }
}

fn round_points(n: i64) -> (r: i128)
    requires
        -0x200_0000_0000 <= n <= 0x200_0000_0000,
    ensures
        r == rounded(n as int, 256),
{
    if n >= 0 {
        ((2 * n + 256) / 512) as i128
    } else {
        let m: i64 = -n;
        -(((2 * m + 256) / 512) as i128)
    }
}

fn drag(a: Place, b: Place) -> (r: Region)
    requires
        reachable(a),
        reachable(b),
    ensures
        r == dragged(a, b),
{
    let (x0, x1): (i64, i64) = if a.0 <= b.0 {
        (a.0, b.0)
    } else {
        (b.0, a.0)
    };
    let (y0, y1): (i64, i64) = if a.1 <= b.1 {
        (a.1, b.1)
    } else {
        (b.1, a.1)
    };
    Region {
        x: clamp_i32(floor_points(x0)),
        y: clamp_i32(floor_points(y0)),
        w: clamp_u32(round_points(x1 - x0)),
        h: clamp_u32(round_points(y1 - y0)),
    }
}

fn pick(p: Place) -> (r: Outcome)
    requires
        reachable(p),
    ensures
        r == picked(p),
{
    Outcome::Point { x: clamp_i32(round_points(p.0)), y: clamp_i32(round_points(p.1)) }
}

impl Freeze {
    /// An overlay over these surfaces that nothing happened on.
    pub fn new(mode: Mode, surfaces: Vec<Surface>) -> (r: Freeze)
        ensures
            r@.wf(),
            r@ == (Frozen {
                mode,
                surfaces: surfaces@,
                pointer: None,
                start: None,
                cur: None,
                dirty: false,
                result: None,
                done: false,
            }),
    {
        Freeze {
            mode,
            surfaces,
            pointer: None,
            start: None,
            cur: None,
            dirty: false,
            result: None,
            done: false,
        }
    }

    /// Map a surface-local position to the global logical space.
    pub fn to_global(&self, surface: usize, x: i32, y: i32) -> (r: Option<Place>)
        ensures
            r == self@.global(surface, x, y),
            r matches Some(p) ==> reachable(p),
    {
        if surface < self.surfaces.len() {
            let s = self.surfaces[surface];
            Some((s.logical_x as i64 * 256 + x as i64, s.logical_y as i64 * 256 + y as i64))
        } else {
            None
        }
    }

    /// Current selection rectangle from the drag, if any.
    pub fn selection(&self) -> (r: Option<Region>)
        requires
            self@.wf(),
        ensures
            r == self@.selection(),
    {
        match (self.start, self.cur) {
            (Some(a), Some(b)) => {
                let r = drag(a, b);
                if r.w > 0 && r.h > 0 {
                    Some(r)
                } else {
                    None
                }
            },
            _ => None,
        }
    }

    /// The pointer did something on a surface.
    pub fn on_pointer(&mut self, e: PointerEvent)
        requires
            old(self)@.wf(),
        ensures
            final(self)@.wf(),
            final(self)@ == old(self)@.after_pointer(e),
    {
        match e {
            PointerEvent::Enter { surface, x, y } => {
                self.pointer = self.to_global(surface, x, y);
                self.dirty = true;
            },
            PointerEvent::Leave => {
                self.pointer = None;
                self.dirty = true;
            },
            PointerEvent::Press { surface, x, y } => {
                if let Some(g) = self.to_global(surface, x, y) {
                    match self.mode {
                        Mode::Region => {
                            self.start = Some(g);
                            self.cur = Some(g);
                            self.pointer = Some(g);
                            self.dirty = true;
                        },
                        Mode::Point => {
                            self.result = Some(pick(g));
                            self.done = true;
                        },
                        Mode::Magnify => {},
                    }
                }
            },
            PointerEvent::Motion { surface, x, y } => {
                if let Some(g) = self.to_global(surface, x, y) {
                    self.pointer = Some(g);
                    if self.mode == Mode::Region && self.start.is_some() {
                        self.cur = Some(g);
                    }
                    self.dirty = true;
                }
            },
            PointerEvent::Release { surface, x, y } => {
                if self.mode == Mode::Region {
                    if let Some(g) = self.to_global(surface, x, y) {
                        self.cur = Some(g);
                    }
                    match self.selection() {
                        Some(r) => {
                            self.result = Some(Outcome::Region(r));
                            self.done = true;
                        },
                        None => {
                            self.start = None;
                            self.cur = None;
                            self.dirty = true;
                        },
                    }
                }
            },
        }
    }

    /// A key was pressed.
    pub fn on_key(&mut self, keysym: u32)
        requires
            old(self)@.wf(),
        ensures
            final(self)@.wf(),
            final(self)@ == old(self)@.after_key(keysym),
    {
        if keysym == KEY_ESCAPE {
            self.result = None;
            self.done = true;
        } else if keysym == KEY_RETURN || keysym == KEY_KP_ENTER {
            match self.mode {
                Mode::Region => {
                    if let Some(r) = self.selection() {
                        self.result = Some(Outcome::Region(r));
                        self.done = true;
                    }
                },
                Mode::Point => {
                    if let Some(g) = self.pointer {
                        self.result = Some(pick(g));
                        self.done = true;
                    }
                },
                Mode::Magnify => {},
            }
        }
    }

    /// A surface went away: the overlay is cancelled.
    pub fn closed(&mut self)
        ensures
            final(self)@ == (Frozen { done: true, ..old(self)@ }),
    {
        self.done = true;
    }

    /// Whether the overlay has to be redrawn, which it then no longer has.
    pub fn take_dirty(&mut self) -> (r: bool)
        ensures
            r == old(self)@.dirty,
            final(self)@ == (Frozen { dirty: false, ..old(self)@ }),
    {
        let d = self.dirty;
        self.dirty = false;
        d
    }

    /// A surface was given a size; zero leaves it as it was. Whether it can be drawn.
    pub fn configure(&mut self, surface: usize, w: u32, h: u32) -> (r: bool)
        requires
            surface < old(self).surfaces@.len(),
        ensures
            final(self)@ == (Frozen {
                surfaces: old(self)@.surfaces.update(
                    surface as int,
                    if w > 0 && h > 0 {
                        Surface { width: w, height: h, ..old(self)@.surfaces[surface as int] }
                    } else {
                        old(self)@.surfaces[surface as int]
                    },
                ),
                ..old(self)@
            }),
            r == (final(self)@.surfaces[surface as int].width != 0),
    {
        let mut s = self.surfaces[surface];
        if w > 0 && h > 0 {
            s.width = w;
            s.height = h;
        }
        self.surfaces.set(surface, s);
        s.width != 0
    }

    /// The region that was selected, or `None` if the overlay was cancelled.
    pub fn select_region(&self) -> (r: Option<Region>)
        requires
            self@.wf(),
            self.mode == Mode::Region,
        ensures
            match r {
                Some(g) => self@.result == Some(Outcome::Region(g)),
                None => self@.result is None,
            },
    {
        match self.result {
            Some(Outcome::Region(r)) => Some(r),
            _ => None,
        }
    }

    /// The point that was picked, or `None` if the overlay was cancelled.
    pub fn pick_point(&self) -> (r: Option<(i32, i32)>)
        requires
            self@.wf(),
            self.mode == Mode::Point,
        ensures
            match r {
                Some((x, y)) => self@.result == Some(Outcome::Point { x, y }),
                None => self@.result is None,
            },
    {
        match self.result {
            Some(Outcome::Point { x, y }) => Some((x, y)),
            _ => None,
        }
    }
}

/// A rectangle is the same whichever of its corners the drag starts from.
pub proof fn a_drag_has_no_direction(a: Place, b: Place)
    ensures
        dragged(a, b) == dragged(b, a),
        dragged(a, b) == dragged((a.0, b.1), (b.0, a.1)),
{
}

/// A click without a drag selects nothing, and the overlay keeps waiting.
pub proof fn a_click_is_no_selection(f: Frozen, surface: usize, x: i32, y: i32)
    requires
        f.mode == Mode::Region,
        surface < f.surfaces.len(),
    ensures
        ({
            let g = f.after_pointer(PointerEvent::Press { surface, x, y }).after_pointer(
                PointerEvent::Release { surface, x, y },
            );
            g.result == f.result && g.done == f.done && g.selection() is None
        }),
{
}

/// What is dragged from a press to a release is the rectangle between the two.
pub proof fn a_drag_selects_its_rectangle(
    f: Frozen,
    from: usize,
    x: i32,
    y: i32,
    to: usize,
    u: i32,
    v: i32,
)
    requires
        f.mode == Mode::Region,
        from < f.surfaces.len(),
        to < f.surfaces.len(),
        dragged(f.global(from, x, y)->0, f.global(to, u, v)->0).w > 0,
        dragged(f.global(from, x, y)->0, f.global(to, u, v)->0).h > 0,
    ensures
        ({
            let g = f.after_pointer(PointerEvent::Press { surface: from, x, y }).after_pointer(
                PointerEvent::Motion { surface: to, x: u, y: v },
            ).after_pointer(PointerEvent::Release { surface: to, x: u, y: v });
            g.done && g.result == Some(
                Outcome::Region(dragged(f.global(from, x, y)->0, f.global(to, u, v)->0)),
            )
        }),
{
}

/// Escape cancels whatever was selected.
pub proof fn escape_cancels(f: Frozen)
    ensures
        f.after_key(KEY_ESCAPE).done,
        f.after_key(KEY_ESCAPE).result is None,
{
}

/// The magnifier has nothing to confirm.
pub proof fn the_magnifier_has_no_result(f: Frozen, e: PointerEvent, keysym: u32)
    requires
        f.mode == Mode::Magnify,
    ensures
        f.after_pointer(e).result == f.result,
        f.after_key(keysym).result == f.result || keysym == KEY_ESCAPE,
{
}

/// The capture that is shown on an output: the first of that name.
pub open spec fn capture_named(names: Seq<Seq<char>>, name: Seq<char>, k: int) -> Option<int>
    decreases names.len() - k,
{
    if k < 0 || k >= names.len() {
        None
    } else if names[k] == name {
        Some(k)
    } else {
        capture_named(names, name, k + 1)
    }
}

/// The capture that is shown on an output: the first of that name. Outputs without one get
/// no surface.
pub fn capture_for(names: &Vec<String>, name: &str) -> (r: Option<usize>)
    ensures
        match r {
            Some(i) => capture_named(views(names@), name@, 0) == Some(i as int),
            None => capture_named(views(names@), name@, 0) is None,
        },
{
    let ghost all = views(names@);
    for i in 0..names.len()
        invariant
            all == views(names@),
            capture_named(all, name@, 0) == capture_named(all, name@, i as int),
    {
        assert(all[i as int] == names@[i as int]@);
        if same(names[i].as_str(), name) {
            return Some(i);
        }
    }
    None
}

/// A number in single precision.
pub open spec fn signed_single(n: int) -> int {
    if n < 0 {
        -single((-n) as nat)
    } else {
        single(n as nat) as int
    }
}

/// How far a coordinate is from an edge, in 256ths of a point and in single precision.
pub open spec fn offset(at: int, edge: i32) -> int {
    signed_single(signed_single(at) - 256 * signed_single(edge as int))
}

/// A place on a surface, in 256ths of a point from its top-left.
pub open spec fn local(s: Surface, p: Place) -> (int, int) {
    (offset(p.0 as int, s.logical_x), offset(p.1 as int, s.logical_y))
}

/// Whether a place is on a surface, its edges counted in.
pub open spec fn on_surface(s: Surface, p: Place) -> bool {
    0 <= local(s, p).0 <= 256 * single(s.width as nat) && 0 <= local(s, p).1 <= 256 * single(
        s.height as nat,
    )
}

fn in_signed_single(n: i64) -> (r: i64)
    requires
        -0x1000_0000_0000 <= n <= 0x1000_0000_0000,
    ensures
        r == signed_single(n as int),
        n < 0 ==> 2 * n <= r <= 0,
        n >= 0 ==> 0 <= r <= 2 * n,
{
    if n < 0 {
        -(in_single((-n) as u64) as i64)
    } else {
        in_single(n as u64) as i64
    }
}

fn offset_of(at: i64, edge: i32) -> (r: i64)
    requires
        -0x100_0000_0000 <= at <= 0x100_0000_0000,
    ensures
        r == offset(at as int, edge),
{
    in_signed_single(in_signed_single(at) - 256 * in_signed_single(edge as i64))
}

/// Where the cursor is on a surface, if it is there at all, in 256ths of a point.
pub fn cursor_on(s: &Surface, pointer: Option<Place>) -> (r: Option<(i64, i64)>)
    requires
        pointer matches Some(p) ==> reachable(p),
    ensures
        match pointer {
            Some(p) => match r {
                Some((x, y)) => on_surface(*s, p) && (x as int, y as int) == local(*s, p),
                None => !on_surface(*s, p),
            },
            None => r is None,
        },
{
    match pointer {
        None => None,
        Some(p) => {
            let x: i64 = offset_of(p.0, s.logical_x);
            let y: i64 = offset_of(p.1, s.logical_y);
            let w: i64 = 256 * in_single(s.width as u64) as i64;
            let h: i64 = 256 * in_single(s.height as u64) as i64;
            if 0 <= x && x <= w && 0 <= y && y <= h {
                Some((x, y))
            } else {
                None
            }
        },
    }
}

/// The pixel of an image of `size` pixels that is at `at` 256ths of a point on a surface
/// `extent` points wide: the part of the way and the product are in single precision.
pub open spec fn pixel_at(at: nat, size: nat, extent: nat) -> nat {
    let part = nearest(at, 256 * single(extent), SINGLE as nat);
    cut(part.0 * single(size), 1, SINGLE as nat) / part.1
}

/// The pixel under a place on a surface, along one axis.
pub fn sample_pixel(at: i64, size: u32, extent: u32) -> (r: i64)
    requires
        extent > 0,
        0 <= at <= 256 * single(extent as nat),
    ensures
        r == pixel_at(at as nat, size as nat, extent as nat),
        0 <= r <= 0x10_0000_0000,
{
    let d: u128 = 256 * in_single(extent as u64);
    let (a, b) = nearest_of(at as u128, d, SINGLE);
    proof {
        nearest_stays_below(at as nat, d as nat, 1, SINGLE as nat);
    }
    let s: u128 = in_single(size as u64);
    assert(a * s <= 0x100_0000 * 0x2_0000_0000) by (nonlinear_arith)
        requires
            a <= 0x100_0000,
            s <= 0x2_0000_0000,
    ;
    let m: u128 = cut_of(a * s, 1, SINGLE);
    let r: u128 = m / b;
    assert(r <= 2 * s + 1) by (nonlinear_arith)
        requires
            r == m / b,
            m <= 2 * (a * s) + 1,
            a <= b,
            b >= 1,
            s >= 0,
    ;
    r as i64
}

/// The colour of a pixel of the frozen image, if it is in it.
pub open spec fn colour_at(rgba: Seq<u8>, w: int, h: int, x: int, y: int) -> Option<(u8, u8, u8)> {
    let at = (y * w + x) * 4;
    if x < 0 || y < 0 || x >= w || y >= h || at + 3 > rgba.len() {
        None
    } else {
        Some((rgba[at], rgba[at + 1], rgba[at + 2]))
    }
}

/// The colour of a pixel of the frozen image, if it is in it.
pub fn sample(rgba: &Vec<u8>, w: u32, h: u32, x: i64, y: i64) -> (r: Option<(u8, u8, u8)>)
    ensures
        r == colour_at(rgba@, w as int, h as int, x as int, y as int),
{
    if x < 0 || y < 0 || x >= w as i64 || y >= h as i64 {
        return None;
    }
    assert(0 <= y * w <= 0xffff_ffff * 0xffff_ffff) by (nonlinear_arith)
        requires
            0 <= y <= 0xffff_ffff,
            0 <= w <= 0xffff_ffff,
    ;
    let at: u128 = (y as u128 * w as u128 + x as u128) * 4;
    let n: usize = rgba.len();
    if at + 3 > n as u128 {
        return None;
    }
    let i: usize = at as usize;
    Some((rgba[i], rgba[i + 1], rgba[i + 2]))
}

/// How far the loupe reaches around its centre, in pixels.
pub const LOUPE_RADIUS: i64 = 6;

/// The side of a magnified pixel, in points.
pub const LOUPE_CELL: i64 = 11;

/// The pixels the loupe shows, row by row: those around the one under the cursor, as far as
/// they are in the image.
pub open spec fn loupe_pixels(rgba: Seq<u8>, w: int, h: int, px: int, py: int) -> Seq<
    Option<(u8, u8, u8)>,
> {
    Seq::new(
        169,
        |i: int| colour_at(rgba, w, h, px - LOUPE_RADIUS + i % 13, py - LOUPE_RADIUS + i / 13),
    )
}

/// The pixels the loupe shows, row by row, thirteen by thirteen.
pub fn loupe(rgba: &Vec<u8>, w: u32, h: u32, px: i64, py: i64) -> (r: Vec<Option<(u8, u8, u8)>>)
    requires
        -0x100_0000_0000 <= px <= 0x100_0000_0000,
        -0x100_0000_0000 <= py <= 0x100_0000_0000,
    ensures
        r@ == loupe_pixels(rgba@, w as int, h as int, px as int, py as int),
{
    let ghost all = loupe_pixels(rgba@, w as int, h as int, px as int, py as int);
    let mut out: Vec<Option<(u8, u8, u8)>> = Vec::new();
    for i in 0..169
        invariant
            -0x100_0000_0000 <= px <= 0x100_0000_0000,
            -0x100_0000_0000 <= py <= 0x100_0000_0000,
            all == loupe_pixels(rgba@, w as int, h as int, px as int, py as int),
            out@ == all.take(i as int),
    {
        let k: i64 = i as i64;
        out.push(sample(rgba, w, h, px - LOUPE_RADIUS + k % 13, py - LOUPE_RADIUS + k / 13));
        assert(all.take(i + 1) =~= all.take(i as int).push(all[i as int]));
    }
    assert(all.take(169) =~= all);
    out
}

/// `n` brought between `lo` and `hi`.
pub open spec fn clamped(n: int, lo: int, hi: int) -> int {
    if n < lo {
        lo
    } else if n > hi {
        hi
    } else {
        n
    }
}

/// Where the loupe starts along one axis: off the cursor, on its other side where it would
/// not fit, and on the screen. It takes `room` points.
pub open spec fn loupe_start(c: int, extent: int, room: int) -> int {
    let first = c + 20 * 256;
    let flipped = if first + room * 256 > extent * 256 {
        c - 20 * 256 - room * 256
    } else {
        first
    };
    let last = (extent - room) * 256;
    clamped(
        flipped,
        512,
        if last > 512 {
            last
        } else {
            512
        },
    )
}

/// The room the loupe takes.
pub const LOUPE_SIDE: i64 = 143;

/// The room below the loupe for its readout.
pub const READOUT: i64 = 26;

fn start_along(c: i64, extent: u32, room: i64) -> (r: i64)
    requires
        0 <= c <= 0x1000_0000_0000,
        0 <= room <= 1000,
    ensures
        r == loupe_start(c as int, extent as int, room as int),
{
    let first: i64 = c + 20 * 256;
    let flipped: i64 = if first + room * 256 > extent as i64 * 256 {
        c - 20 * 256 - room * 256
    } else {
        first
    };
    let last: i64 = (extent as i64 - room) * 256;
    let hi: i64 = if last > 512 {
        last
    } else {
        512
    };
    if flipped < 512 {
        512
    } else if flipped > hi {
        hi
    } else {
        flipped
    }
}

/// Where the loupe is drawn on a surface, in 256ths of a point: offset from the cursor and
/// flipped to stay on-screen, with room for the readout below it.
pub fn loupe_origin(s: &Surface, cx: i64, cy: i64) -> (r: (i64, i64))
    requires
        0 <= cx <= 0x1000_0000_0000,
        0 <= cy <= 0x1000_0000_0000,
    ensures
        r.0 == loupe_start(cx as int, s.width as int, LOUPE_SIDE as int),
        r.1 == loupe_start(cy as int, s.height as int, LOUPE_SIDE + READOUT),
{
    (start_along(cx, s.width, LOUPE_SIDE), start_along(cy, s.height, LOUPE_SIDE + READOUT))
}

/// The loupe is on the screen wherever the cursor is, if the screen has room for it.
pub proof fn the_loupe_stays_on_screen(c: int, extent: int, room: int)
    requires
        0 <= c <= extent * 256,
        0 <= room,
        room + 2 <= extent,
    ensures
        512 <= loupe_start(c, extent, room),
        loupe_start(c, extent, room) + room * 256 <= extent * 256,
{
}

/// The hex readout of a colour: `#RRGGBB`.
pub fn hex_readout(r: u8, g: u8, b: u8) -> (s: String)
    ensures
        s@ == seq!['#'] + hex(r as nat, 2, true) + hex(g as nat, 2, true) + hex(b as nat, 2, true),
{
    let mut s = String::new();
    push_char(&mut s, '#');
    assert(s@ =~= seq!['#']);
    push_hex(&mut s, r as u64, 2, true);
    push_hex(&mut s, g as u64, 2, true);
    push_hex(&mut s, b as u64, 2, true);
    s
}

/// The label of a selection: its width and height.
pub fn size_label(r: &Region) -> (s: String)
    ensures
        s@ == decimal(r.w as nat) + " × "@ + decimal(r.h as nat),
{
    let mut s = String::new();
    push_decimal(&mut s, r.w as u64);
    assert(s@ =~= decimal(r.w as nat));
    s.append(" × ");
    push_decimal(&mut s, r.h as u64);
    s
}

/// A drag selects what it was drawn over, in the global space: the left and top edges of the
/// rectangle are those of the point that holds the drag's own, and its size is the drag's to the
/// nearest point, halves going up. It starts on one surface and ends on another or on the same.
pub proof fn a_drag_selects_what_it_was_drawn_over(
    f: Frozen,
    from: usize,
    x: i32,
    y: i32,
    to: usize,
    u: i32,
    v: i32,
    moved: bool,
)
    requires
        f.mode == Mode::Region,
        from < f.surfaces.len(),
        to < f.surfaces.len(),
        256 * i32::MIN <= 256 * f.surfaces[from as int].logical_x + x <= 256 * i32::MAX,
        256 * i32::MIN <= 256 * f.surfaces[from as int].logical_y + y <= 256 * i32::MAX,
        256 * i32::MIN <= 256 * f.surfaces[to as int].logical_x + u <= 256 * i32::MAX,
        256 * i32::MIN <= 256 * f.surfaces[to as int].logical_y + v <= 256 * i32::MAX,
    ensures
        ({
            let (ax, ay) = (
                256 * f.surfaces[from as int].logical_x + x,
                256 * f.surfaces[from as int].logical_y + y,
            );
            let (bx, by) = (
                256 * f.surfaces[to as int].logical_x + u,
                256 * f.surfaces[to as int].logical_y + v,
            );
            let (dx, dy) = (
                if ax < bx {
                    bx - ax
                } else {
                    ax - bx
                },
                if ay < by {
                    by - ay
                } else {
                    ay - by
                },
            );
            let down = f.after_pointer(PointerEvent::Press { surface: from, x, y });
            let g = (if moved {
                down.after_pointer(PointerEvent::Motion { surface: to, x: u, y: v })
            } else {
                down
            }).after_pointer(PointerEvent::Release { surface: to, x: u, y: v });
            &&& dx >= 128 && dy >= 128 ==> {
                &&& g.done
                &&& g.result matches Some(Outcome::Region(r)) && {
                    &&& 256 * r.x <= ax && 256 * r.x <= bx
                    &&& ax < 256 * r.x + 256 || bx < 256 * r.x + 256
                    &&& 256 * r.y <= ay && 256 * r.y <= by
                    &&& ay < 256 * r.y + 256 || by < 256 * r.y + 256
                    &&& -128 < 256 * r.w - dx <= 128
                    &&& -128 < 256 * r.h - dy <= 128
                }
            }
            &&& dx < 128 || dy < 128 ==> g.done == f.done && g.result == f.result && g.start
                is None
        }),
{
}

/// A drag between whole points of a surface selects exactly the rectangle between them, where
/// the surface lies.
pub proof fn a_drag_on_a_surface_lies_where_the_surface_does(
    f: Frozen,
    surface: usize,
    x: int,
    y: int,
    u: int,
    v: int,
)
    requires
        f.mode == Mode::Region,
        surface < f.surfaces.len(),
        0 <= x < u < 0x80_0000,
        0 <= y < v < 0x80_0000,
        f.surfaces[surface as int].logical_x + u <= i32::MAX,
        f.surfaces[surface as int].logical_y + v <= i32::MAX,
    ensures
        ({
            let s = f.surfaces[surface as int];
            let g = f.after_pointer(
                PointerEvent::Press { surface, x: (256 * x) as i32, y: (256 * y) as i32 },
            ).after_pointer(
                PointerEvent::Release { surface, x: (256 * u) as i32, y: (256 * v) as i32 },
            );
            &&& g.done
            &&& g.result matches Some(Outcome::Region(r)) && r.x == s.logical_x + x && r.y
                == s.logical_y + y && r.w == u - x && r.h == v - y
        }),
{
    a_drag_selects_what_it_was_drawn_over(
        f,
        surface,
        (256 * x) as i32,
        (256 * y) as i32,
        surface,
        (256 * u) as i32,
        (256 * v) as i32,
        false,
    );
}

/// A click picks the point nearest to where it was made in the global space, and so does Enter
/// with the pointer there. Halves go away from zero.
pub proof fn a_click_picks_the_nearest_point(f: Frozen, surface: usize, x: i32, y: i32, enter: bool)
    requires
        f.mode == Mode::Point,
        surface < f.surfaces.len(),
        256 * i32::MIN <= 256 * f.surfaces[surface as int].logical_x + x <= 256 * i32::MAX,
        256 * i32::MIN <= 256 * f.surfaces[surface as int].logical_y + y <= 256 * i32::MAX,
    ensures
        ({
            let gx = 256 * f.surfaces[surface as int].logical_x + x;
            let gy = 256 * f.surfaces[surface as int].logical_y + y;
            let g = if enter {
                f.after_pointer(PointerEvent::Motion { surface, x, y }).after_key(KEY_RETURN)
            } else {
                f.after_pointer(PointerEvent::Press { surface, x, y })
            };
            &&& g.done
            &&& g.result matches Some(Outcome::Point { x: px, y: py }) && {
                &&& -128 <= 256 * px - gx <= 128
                &&& -128 <= 256 * py - gy <= 128
                &&& gx >= 0 ==> -128 < 256 * px - gx
                &&& gx < 0 ==> 256 * px - gx < 128
                &&& gy >= 0 ==> -128 < 256 * py - gy
                &&& gy < 0 ==> 256 * py - gy < 128
            }
        }),
{
}

/// What is asked of the overlay is what was selected: the region of a drag, or the point of a
/// click; nothing, once it was cancelled.
pub proof fn the_result_is_what_was_selected(
    f: Freeze,
    region: Option<Region>,
    point: Option<(i32, i32)>,
)
    requires
        f@.wf(),
        f.mode == Mode::Region ==> call_ensures(Freeze::select_region, (&f,), region),
        f.mode == Mode::Point ==> call_ensures(Freeze::pick_point, (&f,), point),
    ensures
        f.mode == Mode::Region ==> match f.result {
            Some(Outcome::Region(r)) => region == Some(r),
            _ => region is None,
        },
        f.mode == Mode::Point ==> match f.result {
            Some(Outcome::Point { x, y }) => point == Some((x, y)),
            _ => point is None,
        },
{
}

/// A whole number that single precision can hold is itself in it.
proof fn small_numbers_are_exact(n: nat)
    requires
        n < 2 * SINGLE,
    ensures
        single(n) == n,
{
    assert(SINGLE * 1 == SINGLE);
}

/// The cursor is found on a surface where the pointer is on it, as long as single precision
/// holds the coordinates, and nowhere off the surface.
pub proof fn the_cursor_is_where_the_pointer_is(
    f: Frozen,
    surface: usize,
    x: i32,
    y: i32,
    r: Option<(i64, i64)>,
)
    requires
        surface < f.surfaces.len(),
        -0x8000 <= f.surfaces[surface as int].logical_x <= 0x7fff,
        -0x8000 <= f.surfaces[surface as int].logical_y <= 0x7fff,
        f.surfaces[surface as int].width <= 0x7fff,
        f.surfaces[surface as int].height <= 0x7fff,
        -0x10_0000 <= x <= 0x7f_ff00,
        -0x10_0000 <= y <= 0x7f_ff00,
        call_ensures(
            cursor_on,
            (
                &f.surfaces[surface as int],
                f.after_pointer(PointerEvent::Motion { surface, x, y }).pointer,
            ),
            r,
        ),
    ensures
        r is Some <==> 0 <= x <= 256 * f.surfaces[surface as int].width && 0 <= y <= 256
            * f.surfaces[surface as int].height,
        r matches Some(p) ==> p == (x as i64, y as i64),
{
    let s = f.surfaces[surface as int];
    let gx = s.logical_x * 256 + x;
    let gy = s.logical_y * 256 + y;
    small_numbers_are_exact(magnitude(gx));
    small_numbers_are_exact(magnitude(gy));
    small_numbers_are_exact(magnitude(s.logical_x as int));
    small_numbers_are_exact(magnitude(s.logical_y as int));
    small_numbers_are_exact(magnitude(x as int));
    small_numbers_are_exact(magnitude(y as int));
    small_numbers_are_exact(s.width as nat);
    small_numbers_are_exact(s.height as nat);
}

/// The sampled colour is that of the image's own pixel: its first three bytes, at four bytes to
/// the pixel and one row after the other. Off the image there is none.
pub proof fn the_sampled_colour_is_the_pixels(
    img: CapturedImage,
    x: i64,
    y: i64,
    r: Option<(u8, u8, u8)>,
)
    requires
        img.wf(),
        call_ensures(sample, (&img.rgba, img.width, img.height, x, y), r),
    ensures
        r is Some <==> 0 <= x < img.width && 0 <= y < img.height,
        r matches Some((red, green, blue)) ==> {
            &&& img.at(x as int, y as int)[0] == red
            &&& img.at(x as int, y as int)[1] == green
            &&& img.at(x as int, y as int)[2] == blue
            &&& red == img.rgba@[4 * x + 4 * (img.width * y)]
            &&& green == img.rgba@[4 * x + 4 * (img.width * y) + 1]
            &&& blue == img.rgba@[4 * x + 4 * (img.width * y) + 2]
        },
{
    if 0 <= x < img.width && 0 <= y < img.height {
        offset_in_bounds(img.width as int, img.height as int, x as int, y as int);
        assert(y * img.width == img.width * y) by (nonlinear_arith);
    }
}

/// Sampling a part of an image is sampling the image where the part lies.
pub proof fn sampling_a_part_is_sampling_the_whole(img: CapturedImage, o: Region, x: int, y: int)
    requires
        img.wf(),
        0 <= o.x,
        0 <= o.y,
        o.x + o.w <= img.width,
        o.y + o.h <= img.height,
        0 <= x < o.w,
        0 <= y < o.h,
    ensures
        colour_at(
            cropped(img.rgba@, img.width as int, o),
            o.w as int,
            o.h as int,
            x,
            y,
        ) == colour_at(img.rgba@, img.width as int, img.height as int, o.x + x, o.y + y),
{
    let (w, h) = (o.w as int, o.h as int);
    offset_in_bounds(w, h, x, y);
    offset_in_bounds(img.width as int, img.height as int, o.x + x, o.y + y);
    let p = y * w + x;
    assert(p % w == x && p / w == y) by (nonlinear_arith)
        requires
            p == y * w + x,
            0 <= x < w,
    ;
}

/// The loupe shows the pixels around the one under the cursor: that one in its middle, and
/// each of the others as far from the middle as it is from that one.
pub proof fn the_loupe_shows_the_pixels_around(
    rgba: Vec<u8>,
    w: u32,
    h: u32,
    px: i64,
    py: i64,
    dx: int,
    dy: int,
    r: Vec<Option<(u8, u8, u8)>>,
)
    requires
        call_ensures(loupe, (&rgba, w, h, px, py), r),
        -6 <= dx <= 6,
        -6 <= dy <= 6,
    ensures
        r@.len() == 13 * 13,
        r@[84 + 13 * dy + dx] == colour_at(rgba@, w as int, h as int, px + dx, py + dy),
{
}

/// The pixel under a place is as far along the image as the place is along the surface, to the
/// pixel that single precision makes it: never before the last but one, never after the next.
pub proof fn the_pixel_is_as_far_along_as_the_place(at: i64, size: u32, extent: u32, r: i64)
    requires
        0 < extent < 2 * SINGLE,
        size <= 0x40_0000,
        0 <= at <= 256 * extent,
        call_ensures(sample_pixel, (at, size, extent), r),
    ensures
        r * (256 * extent) <= at * size + 256 * extent,
        at * size < (r + 2) * (256 * extent),
{
    small_numbers_are_exact(extent as nat);
    small_numbers_are_exact(size as nat);
    let d = 256 * extent as int;
    let (a, b) = nearest(at as nat, d as nat, SINGLE as nat);
    let m = cut(a * size as nat, 1, SINGLE as nat) as int;
    products_are_near(size as nat, at as nat, d as nat, SINGLE as nat);
    assert(a * size as nat == size as nat * a) by (nonlinear_arith);
    let e = at * size;
    assert(size as nat * at as nat == e) by (nonlinear_arith)
        requires
            e == at * size,
            at >= 0,
    ;
    assert(0 <= e <= d * size) by (nonlinear_arith)
        requires
            e == at * size,
            0 <= at <= d,
            0 <= size,
    ;
    assert(-(d * b) <= m * d - e * b <= d * b) by (nonlinear_arith)
        requires
            -(3 * (e * b)) <= 2 * 0x80_0000 * (m * d - e * b) <= 3 * (e * b),
            e <= d * size,
            size <= 0x40_0000,
            b > 0,
            d > 0,
    {
        assert(e * b <= (d * size) * b);
        assert((d * size) * b <= 0x40_0000 * (d * b));
    }
    let q = m / (b as int);
    assert(q * b <= m < (q + 1) * b) by (nonlinear_arith)
        requires
            q == m / (b as int),
            b > 0,
    ;
    assert(q * d <= e + d) by (nonlinear_arith)
        requires
            q * b <= m,
            m * d - e * b <= d * b,
            b > 0,
            d > 0,
    {
        assert((q * b) * d <= m * d);
        assert((q * d - e - d) * b <= 0);
    }
    assert(e < (q + 2) * d) by (nonlinear_arith)
        requires
            m < (q + 1) * b,
            -(d * b) <= m * d - e * b,
            b > 0,
            d > 0,
    {
        assert(m * d < ((q + 1) * b) * d);
        assert((e - (q + 2) * d) * b < 0);
    }
}

/// Enter takes what is drawn, or the point under the pointer, as letting go or clicking there
/// would; with neither it does nothing, and no other key but Escape ends the overlay.
pub proof fn enter_takes_what_is_drawn(f: Frozen, keysym: u32)
    ensures
        ({
            let after = f.after_key(keysym);
            let enter = keysym == 0xff0d || keysym == 0xff8d;
            &&& enter && f.mode == Mode::Region && f.selection() is Some ==> after.done
                && after.result == f.let_go().result && after.result is Some
            &&& enter && f.mode == Mode::Region && f.selection() is None ==> after == f
            &&& enter && f.mode == Mode::Point && f.pointer is Some ==> after.done && after.result
                == Some(picked(f.pointer->0))
            &&& enter && f.mode == Mode::Point && f.pointer is None ==> after == f
            &&& !enter && keysym != 0xff1b ==> after == f
            &&& keysym == 0xff1b ==> after.done && after.result is None
        }),
{
}

/// A pointer that left is nowhere; one that entered or moved is where it is said to be, and what
/// was being drawn follows it only while it is drawn.
pub proof fn the_pointer_is_followed(f: Frozen, surface: usize, x: i32, y: i32)
    requires
        surface < f.surfaces.len(),
    ensures
        f.after_pointer(PointerEvent::Leave).pointer is None,
        f.after_pointer(PointerEvent::Enter { surface, x, y }).pointer == f.global(surface, x, y),
        ({
            let after = f.after_pointer(PointerEvent::Motion { surface, x, y });
            &&& after.pointer == f.global(surface, x, y)
            &&& after.start == f.start
            &&& f.start is None ==> after.cur == f.cur
            &&& f.start is Some && f.mode == Mode::Region ==> after.cur == f.global(surface, x, y)
            &&& after.result == f.result && after.done == f.done
        }),
{
}

/// The loupe keeps clear of the pointer on a surface that has the room: it begins past it, or
/// ends before it.
pub proof fn the_loupe_keeps_clear_of_the_pointer(s: Surface, cx: i64, cy: i64, r: (i64, i64))
    requires
        call_ensures(loupe_origin, (&s, cx, cy), r),
        0 <= cx <= 256 * s.width,
        0 <= cy <= 256 * s.height,
        s.width >= 2 * 143 + 42,
        s.height >= 2 * 169 + 42,
    ensures
        r.0 == cx + 20 * 256 || r.0 + 143 * 256 == cx - 20 * 256,
        r.1 == cy + 20 * 256 || r.1 + 169 * 256 == cy - 20 * 256,
        0 <= r.0 && r.0 + 143 * 256 <= 256 * s.width,
        0 <= r.1 && r.1 + 169 * 256 <= 256 * s.height,
{
}

/// The capture shown on an output has the output's name, and is the first that has.
pub proof fn the_capture_shown_is_the_outputs(names: Vec<String>, name: &str, r: Option<usize>)
    requires
        call_ensures(capture_for, (&names, name), r),
    ensures
        r matches Some(i) ==> i < names@.len() && names@[i as int]@ == name@ && forall|j: int|
            0 <= j < i ==> (#[trigger] names@[j])@ != name@,
        r is None ==> forall|j: int| 0 <= j < names@.len() ==> (#[trigger] names@[j])@ != name@,
{
    capture_stands(names@, name@, 0);
}

proof fn capture_stands(names: Seq<String>, name: Seq<char>, k: int)
    requires
        0 <= k,
    ensures
        match capture_named(views(names), name, k) {
            Some(i) => k <= i < names.len() && names[i]@ == name && forall|j: int|
                k <= j < i ==> (#[trigger] names[j])@ != name,
            None => forall|j: int| k <= j < names.len() ==> (#[trigger] names[j])@ != name,
        },
    decreases names.len() - k,
{
    if k < names.len() {
        assert(views(names)[k] == names[k]@);
        if names[k]@ != name {
            capture_stands(names, name, k + 1);
        }
    }
}

/// The colour that is read out reads back as that colour.
pub proof fn the_readout_reads_back(
    r: u8,
    g: u8,
    b: u8,
    s: String,
    t: &str,
    c: Option<crate::theme::Rgba>,
)
    requires
        call_ensures(hex_readout, (r, g, b), s),
        t@ == s@,
        call_ensures(crate::theme::parse_hex, (t,), c),
    ensures
        c matches Some(v) && v.r == r && v.g == g && v.b == b && v.a == 255,
{
    crate::theme::a_byte_reads_back(r, true);
    crate::theme::a_byte_reads_back(g, true);
    crate::theme::a_byte_reads_back(b, true);
    let (x, y, z) = (hex(r as nat, 2, true), hex(g as nat, 2, true), hex(b as nat, 2, true));
    assert(s@.len() == 7);
    assert(s@[0] == '#');
    assert(s@.last() == z[1]);
    assert(!crate::text::is_space(z[1])) by {
        assert(crate::theme::nibble(z[1]) is Some);
    }
    crate::text::trimmed_already(s@);
    let h = s@.skip(1);
    assert(h =~= x + y + z);
}

} // verus!
