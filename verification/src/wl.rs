//! What the compositor advertises: capture protocols, windows and outputs.
//!
//! Protocol objects are named by integers here; the program that holds the connection
//! maps them to the objects themselves.

use crate::bytes::{holds_word, host_order, words, ByteOrder};
pub use crate::image::{
    convert, flip_vertically, fourcc, CapturedImage, PixelLayout, ShmFormat,
};
pub use crate::region::Region;
use crate::error::CaptureError;
use crate::text::same;
use vstd::prelude::*;
use vstd::string::*;

verus! {

/// The capture protocol a client drives.
#[derive(Clone, Copy, Debug, PartialEq, Eq, Structural)]
pub enum Protocol {
    /// `ext-image-copy-capture-v1` + `ext-image-capture-source-v1`: outputs and
    /// windows, persistent sessions.
    ImageCopyCapture,
    /// `zwlr-screencopy-v1`: outputs only, one protocol object per frame.
    Screencopy,
}

impl Protocol {
    /// The protocol's interface name, for diagnostics.
    pub fn interface(self) -> (r: &'static str)
        ensures
            r@ == match self {
                Protocol::ImageCopyCapture => "ext-image-copy-capture-v1"@,
                Protocol::Screencopy => "zwlr-screencopy-v1"@,
            },
    {
        match self {
            Protocol::ImageCopyCapture => "ext-image-copy-capture-v1",
            Protocol::Screencopy => "zwlr-screencopy-v1",
        }
    }
}

/// Some advertised global has this name, at least at version `floor`.
pub open spec fn advertised(globals: Seq<(String, u32)>, name: Seq<char>, floor: u32) -> bool {
    exists|i: int| 0 <= i < globals.len() && (#[trigger] globals[i]).0@ == name && globals[i].1
        >= floor
}

/// Whether some advertised global has this name, at least at version `floor`.
pub fn is_advertised(globals: &[(String, u32)], name: &str, floor: u32) -> (r: bool)
    ensures
        r == advertised(globals@, name@, floor),
{
    for i in 0..globals.len()
        invariant
            forall|j: int|
                0 <= j < i ==> !((#[trigger] globals@[j]).0@ == name@ && globals@[j].1 >= floor),
    {
        if same(globals[i].0.as_str(), name) && globals[i].1 >= floor {
            assert(globals@[i as int].0@ == name@);
            return true;
        }
    }
    false
}

/// The version of the first global of that name, from the `k`-th on.
pub open spec fn version_from(globals: Seq<(String, u32)>, name: Seq<char>, k: int) -> Option<u32>
    decreases globals.len() - k,
{
    if k < 0 || k >= globals.len() {
        None
    } else if globals[k].0@ == name {
        Some(globals[k].1)
    } else {
        version_from(globals, name, k + 1)
    }
}

/// The version of the first global of that name.
pub fn global_version(globals: &[(String, u32)], name: &str) -> (r: Option<u32>)
    ensures
        r == version_from(globals@, name@, 0),
{
    for i in 0..globals.len()
        invariant
            version_from(globals@, name@, 0) == version_from(globals@, name@, i as int),
    {
        if same(globals[i].0.as_str(), name) {
            return Some(globals[i].1);
        }
    }
    None
}

/// A global of this name can be bound at version `floor`: the first of them is bound, so it
/// goes by that one's version.
pub open spec fn bindable(globals: Seq<(String, u32)>, name: Seq<char>, floor: u32) -> bool {
    version_from(globals, name, 0) matches Some(v) && v >= floor
}

/// Whether a global of this name can be bound at version `floor`.
pub fn can_bind(globals: &[(String, u32)], name: &str, floor: u32) -> (r: bool)
    ensures
        r == bindable(globals@, name@, floor),
{
    match global_version(globals, name) {
        Some(v) => v >= floor,
        None => false,
    }
}

/// The protocol to drive, from what is advertised.
pub open spec fn protocol_for(globals: Seq<(String, u32)>, force_screencopy: bool) -> Option<
    Protocol,
> {
    let image_copy = advertised(globals, "ext_image_copy_capture_manager_v1"@, 0) && advertised(
        globals,
        "ext_output_image_capture_source_manager_v1"@,
        0,
    );
    let screencopy = advertised(globals, "zwlr_screencopy_manager_v1"@, 0);
    if image_copy && !(screencopy && force_screencopy) {
        Some(Protocol::ImageCopyCapture)
    } else if screencopy {
        Some(Protocol::Screencopy)
    } else {
        None
    }
}

/// Which capture protocol to drive, given the globals a compositor advertises.
/// `ext-image-copy-capture` wins when both are there — it captures windows too and
/// is the protocol `zwlr-screencopy` was deprecated in favour of — unless
/// `force_screencopy` (the `WLR_FORCE_SCREENCOPY` debug knob) asks otherwise. `None`
/// means neither is available.
pub fn select_protocol(globals: &[(String, u32)], force_screencopy: bool) -> (r: Option<Protocol>)
    ensures
        r == protocol_for(globals@, force_screencopy),
{
    let image_copy = is_advertised(globals, "ext_image_copy_capture_manager_v1", 0)
        && is_advertised(globals, "ext_output_image_capture_source_manager_v1", 0);
    let screencopy = is_advertised(globals, "zwlr_screencopy_manager_v1", 0);
    if image_copy && !(screencopy && force_screencopy) {
        Some(Protocol::ImageCopyCapture)
    } else if screencopy {
        Some(Protocol::Screencopy)
    } else {
        None
    }
}

/// How an output's picture is turned before it is shown.
#[derive(Clone, Copy, Debug, PartialEq, Eq, Structural)]
pub enum Transform {
    Normal,
    Rotated90,
    Rotated180,
    Rotated270,
    Flipped,
    Flipped90,
    Flipped180,
    Flipped270,
}

impl Transform {
    /// Whether width and height change places.
    pub open spec fn swaps(self) -> bool {
        matches!(
            self,
            Transform::Rotated90 | Transform::Rotated270 | Transform::Flipped90
                | Transform::Flipped270
        )
    }

    /// Whether width and height change places.
    pub fn is_sideways(self) -> (r: bool)
        ensures
            r == self.swaps(),
    {
        match self {
            Transform::Rotated90 | Transform::Rotated270 | Transform::Flipped90
            | Transform::Flipped270 => true,
            _ => false,
        }
    }
}

/// Division that rounds towards zero.
pub open spec fn quotient(a: int, b: int) -> int {
    if a >= 0 {
        a / b
    } else {
        -((-a) / b)
    }
}

/// Division that rounds towards zero.
fn divide(a: i32, b: i32) -> (r: i32)
    requires
        b >= 1,
    ensures
        r == quotient(a as int, b as int),
{
    let n: u64 = if a >= 0 {
        a as u64
    } else {
        (-(a as i64)) as u64
    };
    let q: u64 = n / (b as u64);
    assert(n / (b as u64) <= n) by (nonlinear_arith)
        requires
            b >= 1,
    ;
    if a >= 0 {
        q as i32
    } else {
        (-(q as i64)) as i32
    }
}

/// Logical dimensions from physical pixels: divided by `scale`, width and height
/// swapped for 90°/270° transforms.
pub open spec fn logical_dims_spec(phys_w: i32, phys_h: i32, scale: i32, transform: Transform) -> (
    i32,
    i32,
) {
    let s = if scale < 1 {
        1
    } else {
        scale
    };
    let w = quotient(phys_w as int, s as int) as i32;
    let h = quotient(phys_h as int, s as int) as i32;
    if transform.swaps() {
        (h, w)
    } else {
        (w, h)
    }
}

/// Logical dimensions from physical pixels: divide by `scale`, swapping
/// width/height for 90°/270° transforms.
pub fn logical_dims(phys_w: i32, phys_h: i32, scale: i32, transform: Transform) -> (r: (i32, i32))
    ensures
        r == logical_dims_spec(phys_w, phys_h, scale, transform),
{
    let s: i32 = if scale < 1 {
        1
    } else {
        scale
    };
    let w: i32 = divide(phys_w, s);
    let h: i32 = divide(phys_h, s);
    if transform.is_sideways() {
        (h, w)
    } else {
        (w, h)
    }
}

/// A capturable output, with its placement in the global logical space.
///
/// Logical position/size come from `xdg-output` (`zxdg_output_manager_v1`) when the
/// compositor exposes it — the only reliable source for multi-monitor positions and
/// fractional-scale logical sizes. Physical pixel size, integer scale and transform
/// come from `wl_output`; if `xdg-output` is absent we fall back to computing the
/// logical size from those.
#[derive(Debug)]
pub struct Output {
    /// The underlying `wl_output` protocol object.
    pub wl_output: u64,
    /// The output's connector name (e.g. `DP-1`).
    pub name: String,
    /// Left edge in the global logical coordinate space.
    pub logical_x: i32,
    /// Top edge in the global logical coordinate space.
    pub logical_y: i32,
    /// Logical width from xdg-output (0 until received; see [`Output::logical_size`]).
    pub logical_w: i32,
    /// Logical height from xdg-output (0 until received; see [`Output::logical_size`]).
    pub logical_h: i32,
    /// Width of the current mode, in physical pixels (pre-transform).
    pub phys_width: i32,
    /// Height of the current mode, in physical pixels (pre-transform).
    pub phys_height: i32,
    /// Integer buffer scale (wl_output; may be coarser than the real scale).
    pub scale: i32,
    /// Output transform (rotation/flip); swaps logical width/height for 90/270.
    pub transform: Transform,
    /// Whether xdg-output supplied authoritative logical geometry.
    pub have_xdg: bool,
}

impl Clone for Output {
    fn clone(&self) -> (r: Self)
        ensures
            r == *self,
    {
        Output {
            wl_output: self.wl_output,
            name: self.name.clone(),
            logical_x: self.logical_x,
            logical_y: self.logical_y,
            logical_w: self.logical_w,
            logical_h: self.logical_h,
            phys_width: self.phys_width,
            phys_height: self.phys_height,
            scale: self.scale,
            transform: self.transform,
            have_xdg: self.have_xdg,
        }
    }
}

impl Output {
    /// The logical size: xdg-output's where it is known, the mode's otherwise.
    pub open spec fn size(&self) -> (i32, i32) {
        if self.have_xdg && self.logical_w > 0 && self.logical_h > 0 {
            (self.logical_w, self.logical_h)
        } else {
            logical_dims_spec(self.phys_width, self.phys_height, self.scale, self.transform)
        }
    }

    /// The output's place in the global logical space.
    pub open spec fn rect(&self) -> Region {
        let (w, h) = self.size();
        Region {
            x: self.logical_x,
            y: self.logical_y,
            w: if w > 0 {
                w as u32
            } else {
                0
            },
            h: if h > 0 {
                h as u32
            } else {
                0
            },
        }
    }

    /// The size of a capture: the mode's, turned the way the output is.
    pub open spec fn captured(&self) -> (i32, i32) {
        if self.transform.swaps() {
            (self.phys_height, self.phys_width)
        } else {
            (self.phys_width, self.phys_height)
        }
    }

    /// Logical size (points). Prefers xdg-output's authoritative size (handles
    /// fractional scale); otherwise physical pixels divided by the integer scale,
    /// with width/height swapped for 90°/270° transforms.
    pub fn logical_size(&self) -> (r: (i32, i32))
        ensures
            r == self.size(),
    {
        if self.have_xdg && self.logical_w > 0 && self.logical_h > 0 {
            (self.logical_w, self.logical_h)
        } else {
            logical_dims(self.phys_width, self.phys_height, self.scale, self.transform)
        }
    }

    /// The output's placement in the global logical space, as a [`Region`].
    pub fn logical_rect(&self) -> (r: Region)
        ensures
            r == self.rect(),
    {
        let (w, h) = self.logical_size();
        Region {
            x: self.logical_x,
            y: self.logical_y,
            w: if w > 0 {
                w as u32
            } else {
                0
            },
            h: if h > 0 {
                h as u32
            } else {
                0
            },
        }
    }

    /// The pixel size of a capture of this output. The compositor hands a rotated output
    /// over already turned into the layout's orientation, so on a 90°/270° output the
    /// mode's width is the capture's height.
    pub fn capture_size(&self) -> (r: (i32, i32))
        ensures
            r == self.captured(),
    {
        if self.transform.is_sideways() {
            (self.phys_height, self.phys_width)
        } else {
            (self.phys_width, self.phys_height)
        }
    }
}

/// An application id and a title, as texts.
pub type Names = (Seq<char>, Seq<char>);

/// The identity of a window, in the terms both foreign-toplevel protocols share.
/// Correlates a zwlr handle to a capture [`Toplevel`] (and to a chooser tile).
///
/// The app-ids on both sides line up because the ones `ext` leaves empty are completed
/// from that very protocol (see [`complete_app_ids`]); a window zwlr does not name stays
/// unmatched. Callers treat a failed match as "unknown", never as an error.
#[derive(Debug, PartialEq, Eq)]
pub struct WindowIdentity {
    /// The application id.
    pub app_id: String,
    /// The window title.
    pub title: String,
    /// Ordinal among the windows sharing this (app_id, title), in creation order.
    pub dup_index: usize,
}

impl Clone for WindowIdentity {
    fn clone(&self) -> (r: Self)
        ensures
            r == *self,
    {
        WindowIdentity {
            app_id: self.app_id.clone(),
            title: self.title.clone(),
            dup_index: self.dup_index,
        }
    }
}

/// A capturable window.
#[derive(Debug)]
pub struct Toplevel {
    /// The protocol handle used to capture or act on this window.
    pub handle: u64,
    /// Compositor-assigned stable identifier for the toplevel.
    pub identifier: String,
    /// The window title.
    pub title: String,
    /// The application id (used to match an icon / desktop entry). Empty only for a
    /// window neither foreign-toplevel protocol names — typically a system surface;
    /// an XWayland window carries its X11 class here.
    pub app_id: String,
}

impl Clone for Toplevel {
    fn clone(&self) -> (r: Self)
        ensures
            r == *self,
    {
        Toplevel {
            handle: self.handle,
            identifier: self.identifier.clone(),
            title: self.title.clone(),
            app_id: self.app_id.clone(),
        }
    }
}

impl Toplevel {
    /// What the window is called.
    pub open spec fn names(&self) -> Names {
        (self.app_id@, self.title@)
    }
}

/// A toplevel as zwlr-foreign-toplevel-management advertises it.
#[derive(Debug)]
pub struct ZwlrToplevel {
    /// The protocol handle.
    pub handle: u64,
    /// The application id.
    pub app_id: String,
    /// The window title.
    pub title: String,
    /// Whether the compositor reports this window as `activated` (focused).
    pub activated: bool,
}

impl ZwlrToplevel {
    /// What the window is called.
    pub open spec fn names(&self) -> Names {
        (self.app_id@, self.title@)
    }
}

/// How many of the first `n` windows are called `who`.
pub open spec fn count_named(windows: Seq<Names>, who: Names, n: int) -> nat
    decreases n,
{
    if n <= 0 {
        0
    } else {
        count_named(windows, who, n - 1) + if windows[n - 1] == who {
            1nat
        } else {
            0nat
        }
    }
}

/// What each pair of strings spells.
pub open spec fn pair_names(v: Seq<(&str, &str)>) -> Seq<Names> {
    v.map_values(|p: (&str, &str)| (p.0@, p.1@))
}

/// What each window zwlr lists is called.
pub open spec fn zwlr_names(v: Seq<ZwlrToplevel>) -> Seq<Names> {
    v.map_values(|t: ZwlrToplevel| t.names())
}

/// What each window the `ext` list holds is called.
pub open spec fn toplevel_names(v: Seq<Toplevel>) -> Seq<Names> {
    v.map_values(|t: Toplevel| t.names())
}

/// How many of the windows advertised before this one share its identity.
pub fn dup_index(prior: &[(&str, &str)], app_id: &str, title: &str) -> (r: usize)
    ensures
        r == count_named(pair_names(prior@), (app_id@, title@), prior@.len() as int),
{
    let mut n: usize = 0;
    for i in 0..prior.len()
        invariant
            n <= i,
            n == count_named(pair_names(prior@), (app_id@, title@), i as int),
    {
        if same(prior[i].0, app_id) && same(prior[i].1, title) {
            n = n + 1;
        }
    }
    n
}

/// Whether `z`, as zwlr names it, can be the `ext` window `w`: the title is the same, and
/// so is the app-id where `w` has one; a nameless window takes any app-id there is.
pub open spec fn counterpart(z: Names, w: Names) -> bool {
    z.1 == w.1 && if w.0.len() == 0 {
        z.0.len() > 0
    } else {
        z.0 == w.0
    }
}

/// The first window from `k` on that is not taken and can be `w`.
pub open spec fn first_free_from(zwlr: Seq<Names>, taken: Seq<bool>, w: Names, k: int) -> Option<
    int,
>
    decreases zwlr.len() - k,
{
    if k < 0 || k >= zwlr.len() {
        None
    } else if !taken[k] && counterpart(zwlr[k], w) {
        Some(k)
    } else {
        first_free_from(zwlr, taken, w, k + 1)
    }
}

/// The windows zwlr lists that the first `n` named `ext` windows have claimed.
pub open spec fn claimed(ext: Seq<Names>, zwlr: Seq<Names>, n: int) -> Seq<bool>
    decreases n,
{
    if n <= 0 {
        Seq::new(zwlr.len(), |i: int| false)
    } else {
        let taken = claimed(ext, zwlr, n - 1);
        if ext[n - 1].0.len() == 0 {
            taken
        } else {
            match first_free_from(zwlr, taken, ext[n - 1], 0) {
                Some(k) => taken.update(k, true),
                None => taken,
            }
        }
    }
}

/// Which zwlr window each of the first `n` `ext` windows takes its app-id from, and what
/// is taken by then.
pub open spec fn adopting(ext: Seq<Names>, zwlr: Seq<Names>, n: int) -> (
    Seq<bool>,
    Seq<Option<int>>,
)
    decreases n,
{
    if n <= 0 {
        (claimed(ext, zwlr, ext.len() as int), Seq::empty())
    } else {
        let (taken, from) = adopting(ext, zwlr, n - 1);
        if ext[n - 1].0.len() > 0 {
            (taken, from.push(None))
        } else {
            match first_free_from(zwlr, taken, ext[n - 1], 0) {
                Some(k) => (taken.update(k, true), from.push(Some(k))),
                None => (taken, from.push(None)),
            }
        }
    }
}

/// Which zwlr window each `ext` window takes its app-id from.
pub open spec fn adopted_from(ext: Seq<Names>, zwlr: Seq<Names>) -> Seq<Option<int>> {
    adopting(ext, zwlr, ext.len() as int).1
}

/// What `first_free_from` finds.
proof fn first_free_is_free(zwlr: Seq<Names>, taken: Seq<bool>, w: Names, k: int)
    requires
        0 <= k,
    ensures
        first_free_from(zwlr, taken, w, k) matches Some(i) ==> k <= i < zwlr.len() && !taken[i]
            && counterpart(zwlr[i], w),
    decreases zwlr.len() - k,
{
    if k < zwlr.len() && !(!taken[k] && counterpart(zwlr[k], w)) {
        first_free_is_free(zwlr, taken, w, k + 1);
    }
}

/// As many slots as zwlr windows.
proof fn claimed_len(ext: Seq<Names>, zwlr: Seq<Names>, n: int)
    ensures
        claimed(ext, zwlr, n).len() == zwlr.len(),
    decreases n,
{
    if n > 0 {
        claimed_len(ext, zwlr, n - 1);
        first_free_is_free(zwlr, claimed(ext, zwlr, n - 1), ext[n - 1], 0);
    }
}

/// What the first `n` windows adopt: a named one nothing; a nameless one, an entry with
/// its title and an app-id, which is taken from then on and was not before.
proof fn adopting_is_sound(ext: Seq<Names>, zwlr: Seq<Names>, n: int)
    requires
        0 <= n <= ext.len(),
    ensures
        adopting(ext, zwlr, n).0.len() == zwlr.len(),
        adopting(ext, zwlr, n).1.len() == n,
        forall|i: int|
            0 <= i < zwlr.len() && claimed(ext, zwlr, ext.len() as int)[i] ==> #[trigger] adopting(
                ext,
                zwlr,
                n,
            ).0[i],
        forall|i: int|
            0 <= i < n ==> (#[trigger] adopting(ext, zwlr, n).1[i] matches Some(k) ==> {
                &&& ext[i].0.len() == 0
                &&& 0 <= k < zwlr.len()
                &&& zwlr[k].1 == ext[i].1
                &&& zwlr[k].0.len() > 0
                &&& !claimed(ext, zwlr, ext.len() as int)[k]
                &&& adopting(ext, zwlr, n).0[k]
            }),
        forall|i: int, j: int|
            0 <= i < j < n && (#[trigger] adopting(ext, zwlr, n).1[i]) is Some ==> (
            #[trigger] adopting(ext, zwlr, n).1[j]) != adopting(ext, zwlr, n).1[i],
    decreases n,
{
    claimed_len(ext, zwlr, ext.len() as int);
    if n > 0 {
        adopting_is_sound(ext, zwlr, n - 1);
        let taken = adopting(ext, zwlr, n - 1).0;
        first_free_is_free(zwlr, taken, ext[n - 1], 0);
    }
}

/// A nameless window only ever adopts the app-id of a window with its title that no other
/// window claims or adopts from; a window with a name keeps it.
pub proof fn adoption_is_one_to_one(ext: Seq<Names>, zwlr: Seq<Names>)
    ensures
        adopted_from(ext, zwlr).len() == ext.len(),
        forall|i: int|
            0 <= i < ext.len() && ext[i].0.len() > 0 ==> (#[trigger] adopted_from(ext, zwlr)[i])
                is None,
        forall|i: int|
            0 <= i < ext.len() ==> (#[trigger] adopted_from(ext, zwlr)[i] matches Some(k) ==> {
                &&& 0 <= k < zwlr.len()
                &&& zwlr[k].1 == ext[i].1
                &&& zwlr[k].0.len() > 0
                &&& !claimed(ext, zwlr, ext.len() as int)[k]
            }),
        forall|i: int, j: int|
            0 <= i < j < ext.len() && (#[trigger] adopted_from(ext, zwlr)[i]) is Some ==> (
            #[trigger] adopted_from(ext, zwlr)[j]) != adopted_from(ext, zwlr)[i],
{
    adopting_is_sound(ext, zwlr, ext.len() as int);
}

/// How many of the first `m` zwlr windows are called `w` and taken.
spec fn count_taken(zwlr: Seq<Names>, taken: Seq<bool>, w: Names, m: int) -> nat
    decreases m,
{
    if m <= 0 {
        0
    } else {
        count_taken(zwlr, taken, w, m - 1) + if zwlr[m - 1] == w && taken[m - 1] {
            1nat
        } else {
            0nat
        }
    }
}

/// Taking one more window called `w` counts, and any other does not.
proof fn taking_one_counts(zwlr: Seq<Names>, taken: Seq<bool>, w: Names, k: int, m: int)
    requires
        0 <= m <= zwlr.len(),
        taken.len() == zwlr.len(),
        0 <= k < zwlr.len(),
        !taken[k],
    ensures
        count_taken(zwlr, taken.update(k, true), w, m) == count_taken(zwlr, taken, w, m) + if k < m
            && zwlr[k] == w {
            1nat
        } else {
            0nat
        },
    decreases m,
{
    if m > 0 {
        taking_one_counts(zwlr, taken, w, k, m - 1);
    }
}

/// No more are taken than there are, and where none is free all are.
proof fn taken_of_all(zwlr: Seq<Names>, taken: Seq<bool>, w: Names, m: int)
    requires
        0 <= m <= zwlr.len(),
    ensures
        count_taken(zwlr, taken, w, m) <= count_named(zwlr, w, m),
        (forall|k: int| 0 <= k < m && zwlr[k] == w ==> #[trigger] taken[k]) <==> count_taken(
            zwlr,
            taken,
            w,
            m,
        ) == count_named(zwlr, w, m),
    decreases m,
{
    if m > 0 {
        taken_of_all(zwlr, taken, w, m - 1);
        if zwlr[m - 1] == w && !taken[m - 1] {
            assert(!(forall|k: int| 0 <= k < m && zwlr[k] == w ==> #[trigger] taken[k]));
        } else if forall|k: int| 0 <= k < m - 1 && zwlr[k] == w ==> #[trigger] taken[k] {
            assert forall|k: int| 0 <= k < m && zwlr[k] == w implies #[trigger] taken[k] by {}
        } else {
            let k = choose|k: int| 0 <= k < m - 1 && zwlr[k] == w && !#[trigger] taken[k];
            assert(0 <= k < m && zwlr[k] == w && !taken[k]);
        }
    }
}

/// Where `first_free_from` finds nothing, there is nothing free.
proof fn nothing_free(zwlr: Seq<Names>, taken: Seq<bool>, w: Names, k: int)
    requires
        0 <= k,
        first_free_from(zwlr, taken, w, k) is None,
    ensures
        forall|i: int|
            k <= i < zwlr.len() && counterpart(zwlr[i], w) ==> #[trigger] taken[i],
    decreases zwlr.len() - k,
{
    if k < zwlr.len() {
        nothing_free(zwlr, taken, w, k + 1);
    }
}

/// Where nothing is free, `first_free_from` finds nothing.
proof fn finds_nothing(zwlr: Seq<Names>, taken: Seq<bool>, w: Names, k: int)
    requires
        0 <= k,
        forall|i: int|
            k <= i < zwlr.len() && counterpart(zwlr[i], w) ==> #[trigger] taken[i],
    ensures
        first_free_from(zwlr, taken, w, k) is None,
    decreases zwlr.len() - k,
{
    if k < zwlr.len() {
        finds_nothing(zwlr, taken, w, k + 1);
    }
}

/// Of the windows called `w`, as many are claimed as there are claims, while they last.
proof fn claims_counted(ext: Seq<Names>, zwlr: Seq<Names>, w: Names, n: int)
    requires
        0 <= n <= ext.len(),
        w.0.len() > 0,
    ensures
        count_taken(zwlr, claimed(ext, zwlr, n), w, zwlr.len() as int) == if count_named(ext, w, n)
            <= count_named(zwlr, w, zwlr.len() as int) {
            count_named(ext, w, n)
        } else {
            count_named(zwlr, w, zwlr.len() as int)
        },
    decreases n,
{
    let m = zwlr.len() as int;
    if n <= 0 {
        nothing_claimed(zwlr, w, m);
    } else {
        claims_counted(ext, zwlr, w, n - 1);
        claimed_len(ext, zwlr, n - 1);
        let taken = claimed(ext, zwlr, n - 1);
        let e = ext[n - 1];
        if e.0.len() > 0 {
            first_free_is_free(zwlr, taken, e, 0);
            taken_of_all(zwlr, taken, w, m);
            match first_free_from(zwlr, taken, e, 0) {
                Some(k) => {
                    assert(zwlr[k] == e);
                    taking_one_counts(zwlr, taken, w, k, m);
                    if e == w {
                        assert(!taken[k]);
                    }
                },
                None => {
                    nothing_free(zwlr, taken, e, 0);
                    if e == w {
                        assert forall|k: int| 0 <= k < m && zwlr[k] == w implies #[trigger] taken[k] by {
                            assert(counterpart(zwlr[k], e));
                        }
                    }
                },
            }
        }
    }
}

/// Before any claim, nothing is taken.
proof fn nothing_claimed(zwlr: Seq<Names>, w: Names, m: int)
    requires
        0 <= m <= zwlr.len(),
    ensures
        count_taken(zwlr, Seq::new(zwlr.len(), |i: int| false), w, m) == 0,
    decreases m,
{
    if m > 0 {
        nothing_claimed(zwlr, w, m - 1);
    }
}

/// The windows with the names they adopt.
pub open spec fn renamed(ext: Seq<Names>, zwlr: Seq<Names>) -> Seq<Names> {
    Seq::new(
        ext.len(),
        |i: int|
            match adopted_from(ext, zwlr)[i] {
                Some(k) => (zwlr[k].0, ext[i].1),
                None => ext[i],
            },
    )
}

/// What is adopted so far stays as it is.
proof fn adopting_is_stable(ext: Seq<Names>, zwlr: Seq<Names>, n: int, m: int)
    requires
        0 <= n <= m <= ext.len(),
    ensures
        forall|i: int|
            0 <= i < n ==> (#[trigger] adopting(ext, zwlr, m).1[i]) == adopting(ext, zwlr, n).1[i],
        forall|k: int|
            0 <= k < zwlr.len() && adopting(ext, zwlr, n).0[k] ==> #[trigger] adopting(
                ext,
                zwlr,
                m,
            ).0[k],
    decreases m,
{
    adopting_is_sound(ext, zwlr, n);
    if n < m {
        adopting_is_stable(ext, zwlr, n, m - 1);
        adopting_is_sound(ext, zwlr, m - 1);
        first_free_is_free(zwlr, adopting(ext, zwlr, m - 1).0, ext[m - 1], 0);
    }
}

/// Of the windows called `w`, what is taken by the time `n` windows adopted is what was
/// claimed and what they adopted.
proof fn adoptions_counted(ext: Seq<Names>, zwlr: Seq<Names>, w: Names, n: int)
    requires
        0 <= n <= ext.len(),
        w.0.len() > 0,
    ensures
        count_taken(zwlr, adopting(ext, zwlr, n).0, w, zwlr.len() as int) + count_named(ext, w, n)
            == count_taken(zwlr, claimed(ext, zwlr, ext.len() as int), w, zwlr.len() as int)
            + count_named(renamed(ext, zwlr), w, n),
    decreases n,
{
    if n > 0 {
        let m = zwlr.len() as int;
        adoptions_counted(ext, zwlr, w, n - 1);
        adopting_is_sound(ext, zwlr, n - 1);
        adopting_is_sound(ext, zwlr, n);
        adopting_is_stable(ext, zwlr, n, ext.len() as int);
        let taken = adopting(ext, zwlr, n - 1).0;
        let e = ext[n - 1];
        first_free_is_free(zwlr, taken, e, 0);
        assert(adopted_from(ext, zwlr)[n - 1] == adopting(ext, zwlr, n).1[n - 1]);
        if e.0.len() == 0 {
            if let Some(k) = first_free_from(zwlr, taken, e, 0) {
                taking_one_counts(zwlr, taken, w, k, m);
                assert(renamed(ext, zwlr)[n - 1] == zwlr[k]);
            }
        }
    }
}

/// A window is named once and keeps that name: giving names a second time, to the same
/// windows, changes nothing.
pub proof fn naming_is_done_once(ext: Seq<Names>, zwlr: Seq<Names>, i: int)
    requires
        0 <= i < ext.len(),
    ensures
        adopted_from(renamed(ext, zwlr), zwlr)[i] is None,
{
    let again = renamed(ext, zwlr);
    let n = ext.len() as int;
    let m = zwlr.len() as int;
    adoption_is_one_to_one(ext, zwlr);
    adoption_is_one_to_one(again, zwlr);
    if again[i].0.len() == 0 {
        let e = ext[i];
        assert(adopted_from(ext, zwlr)[i] is None && again[i] == e) by {
            if let Some(k) = adopted_from(ext, zwlr)[i] {
                assert(zwlr[k].0.len() > 0);
            }
        }
        adopting_is_sound(ext, zwlr, i);
        adopting_is_sound(ext, zwlr, n);
        adopting_is_stable(ext, zwlr, i + 1, n);
        adopting_is_stable(ext, zwlr, i, n);
        assert(adopting(ext, zwlr, i + 1).1[i] is None);
        let taken = adopting(ext, zwlr, i).0;
        assert(first_free_from(zwlr, taken, e, 0) is None);
        nothing_free(zwlr, taken, e, 0);
        let claims = claimed(again, zwlr, n);
        assert forall|k: int| 0 <= k < m && counterpart(zwlr[k], e) implies #[trigger] claims[k] by {
            let w = zwlr[k];
            let last = adopting(ext, zwlr, n).0;
            assert forall|j: int| 0 <= j < m && zwlr[j] == w implies #[trigger] last[j] by {
                assert(counterpart(zwlr[j], e));
                assert(taken[j]);
            }
            taken_of_all(zwlr, last, w, m);
            claims_counted(ext, zwlr, w, n);
            adoptions_counted(ext, zwlr, w, n);
            claims_counted(again, zwlr, w, n);
            taken_of_all(zwlr, claims, w, m);
        }
        adopting_is_sound(again, zwlr, i);
        let then = adopting(again, zwlr, i).0;
        assert forall|k: int| 0 <= k < m && counterpart(zwlr[k], e) implies #[trigger] then[k] by {
            assert(claims[k]);
        }
        finds_nothing(zwlr, then, e, 0);
        adopting_is_stable(again, zwlr, i + 1, n);
        adopting_is_sound(again, zwlr, i + 1);
    }
}

/// The first zwlr toplevel not yet claimed that can be the window `(app_id, title)`.
pub fn first_free(zwlr: &[(&str, &str)], taken: &[bool], app_id: &str, title: &str) -> (r: Option<
    usize,
>)
    requires
        taken@.len() == zwlr@.len(),
    ensures
        match r {
            Some(i) => first_free_from(pair_names(zwlr@), taken@, (app_id@, title@), 0) == Some(
                i as int,
            ) && i < zwlr@.len(),
            None => first_free_from(pair_names(zwlr@), taken@, (app_id@, title@), 0) is None,
        },
{
    let ghost names = pair_names(zwlr@);
    let ghost w = (app_id@, title@);
    for i in 0..zwlr.len()
        invariant
            taken@.len() == zwlr@.len(),
            names == pair_names(zwlr@),
            w == (app_id@, title@),
            first_free_from(names, taken@, w, 0) == first_free_from(names, taken@, w, i as int),
    {
        if !taken[i] && same(zwlr[i].1, title) {
            let fits = if app_id.is_empty() {
                !zwlr[i].0.is_empty()
            } else {
                same(zwlr[i].0, app_id)
            };
            if fits {
                return Some(i);
            }
        }
    }
    None
}

/// For each `ext` toplevel `(app_id, title)`, the app-id to adopt from the `zwlr`
/// view of the same windows, or `None` to leave it as it is.
///
/// The title is the only field both protocols spell the same way, so it is the key;
/// windows sharing a title are told apart by position. Windows the two protocols
/// already agree on claim their counterpart first, so a nameless window can never
/// adopt the app-id of a window that has its own.
pub fn adopt_app_ids<'a>(ext: &[(&str, &str)], zwlr: &[(&'a str, &'a str)]) -> (r: Vec<
    Option<&'a str>,
>)
    ensures
        r@.len() == ext@.len(),
        forall|i: int|
            0 <= i < ext@.len() ==> match adopted_from(pair_names(ext@), pair_names(zwlr@))[i] {
                Some(k) => (#[trigger] r@[i]) == Some(zwlr@[k].0),
                None => r@[i] is None,
            },
{
    let ghost e = pair_names(ext@);
    let ghost z = pair_names(zwlr@);
    let mut taken: Vec<bool> = Vec::new();
    for i in 0..zwlr.len()
        invariant
            taken@.len() == i,
            forall|j: int| 0 <= j < i ==> !taken@[j],
    {
        taken.push(false);
    }
    assert(taken@ =~= claimed(e, z, 0));
    for n in 0..ext.len()
        invariant
            e == pair_names(ext@),
            z == pair_names(zwlr@),
            taken@.len() == zwlr@.len(),
            taken@ == claimed(e, z, n as int),
    {
        let (app_id, title) = ext[n];
        if !app_id.is_empty() {
            if let Some(i) = first_free(zwlr, taken.as_slice(), app_id, title) {
                taken[i] = true;
            }
        }
    }
    let mut adopted: Vec<Option<&'a str>> = Vec::new();
    for n in 0..ext.len()
        invariant
            e == pair_names(ext@),
            z == pair_names(zwlr@),
            taken@.len() == zwlr@.len(),
            taken@ == adopting(e, z, n as int).0,
            adopted@.len() == n,
            adopting(e, z, n as int).1.len() == n,
            forall|i: int|
                0 <= i < n ==> match adopting(e, z, n as int).1[i] {
                    Some(k) => (#[trigger] adopted@[i]) == Some(zwlr@[k].0),
                    None => adopted@[i] is None,
                },
    {
        let (app_id, title) = ext[n];
        let mut slot: Option<&'a str> = None;
        if app_id.is_empty() {
            if let Some(i) = first_free(zwlr, taken.as_slice(), app_id, title) {
                taken[i] = true;
                slot = Some(zwlr[i].0);
            }
        }
        adopted.push(slot);
    }
    adopted
}

/// `before` and `after` list the same windows, but for the app-ids `adopted`.
pub open spec fn completed(
    before: Seq<Toplevel>,
    after: Seq<Toplevel>,
    zwlr: Seq<ZwlrToplevel>,
) -> bool {
    let from = adopted_from(toplevel_names(before), zwlr_names(zwlr));
    &&& after.len() == before.len()
    &&& forall|i: int|
        0 <= i < before.len() ==> {
            &&& (#[trigger] after[i]).handle == before[i].handle
            &&& after[i].identifier == before[i].identifier
            &&& after[i].title == before[i].title
            &&& after[i].app_id@ == match from[i] {
                Some(k) => zwlr[k].app_id@,
                None => before[i].app_id@,
            }
        }
}

/// A list that was completed once is complete: nothing changes a second time, as long as
/// zwlr lists the same windows.
pub proof fn completing_twice_changes_nothing(
    before: Seq<Toplevel>,
    after: Seq<Toplevel>,
    again: Seq<Toplevel>,
    zwlr: Seq<ZwlrToplevel>,
    i: int,
)
    requires
        completed(before, after, zwlr),
        completed(after, again, zwlr),
        0 <= i < before.len(),
    ensures
        again[i].handle == after[i].handle,
        again[i].identifier == after[i].identifier,
        again[i].title == after[i].title,
        again[i].app_id@ == after[i].app_id@,
{
    let ext = toplevel_names(before);
    let z = zwlr_names(zwlr);
    adoption_is_one_to_one(ext, z);
    assert(toplevel_names(after) =~= renamed(ext, z)) by {
        assert forall|j: int| 0 <= j < before.len() implies toplevel_names(after)[j] == renamed(
            ext,
            z,
        )[j] by {
            assert(after[j].title == before[j].title);
            assert(ext[j] == (before[j].app_id@, before[j].title@));
        }
    }
    naming_is_done_once(ext, z, i);
    assert(after[i].handle == before[i].handle);
    assert(again[i].handle == after[i].handle);
}

/// The `(app_id, title)` pairs of the windows of the `ext` list.
fn toplevel_pairs(v: &Vec<Toplevel>) -> (r: Vec<(&str, &str)>)
    ensures
        pair_names(r@) == toplevel_names(v@),
{
    let mut out: Vec<(&str, &str)> = Vec::new();
    for i in 0..v.len()
        invariant
            out@.len() == i,
            forall|j: int|
                0 <= j < i ==> ((#[trigger] out@[j]).0@, out@[j].1@) == v@[j].names(),
    {
        out.push((v[i].app_id.as_str(), v[i].title.as_str()));
    }
    assert(pair_names(out@) =~= toplevel_names(v@));
    out
}

/// The `(app_id, title)` pairs of the windows zwlr lists.
fn zwlr_pairs(v: &Vec<ZwlrToplevel>) -> (r: Vec<(&str, &str)>)
    ensures
        r@.len() == v@.len(),
        pair_names(r@) == zwlr_names(v@),
        forall|j: int| 0 <= j < v@.len() ==> (#[trigger] r@[j]).0@ == v@[j].app_id@,
{
    let mut out: Vec<(&str, &str)> = Vec::new();
    for i in 0..v.len()
        invariant
            out@.len() == i,
            forall|j: int|
                0 <= j < i ==> ((#[trigger] out@[j]).0@, out@[j].1@) == v@[j].names(),
    {
        out.push((v[i].app_id.as_str(), v[i].title.as_str()));
    }
    assert(pair_names(out@) =~= zwlr_names(v@));
    out
}

/// Give every window an app-id, taking from the zwlr list the ones
/// `ext-foreign-toplevel-list` left empty.
///
/// Sway announces an XWayland window through `ext` with an empty app-id while
/// zwlr reports its X11 class, so Steam, games and Java applications would
/// otherwise reach every caller unnamed: unfilterable by `--app-id`, iconless,
/// and taken for a system surface by the chooser. A window absent from the zwlr
/// list, or unnamed there too, keeps its empty app-id — that is what a real
/// system surface looks like.
pub fn complete_app_ids(toplevels: &mut Vec<Toplevel>, zwlr: &Vec<ZwlrToplevel>)
    ensures
        completed(old(toplevels)@, final(toplevels)@, zwlr@),
{
    let ghost before = toplevels@;
    let mut names: Vec<Option<String>> = Vec::new();
    {
        let e = toplevel_pairs(toplevels);
        let z = zwlr_pairs(zwlr);
        let adopted = adopt_app_ids(e.as_slice(), z.as_slice());
        proof {
            adoption_is_one_to_one(toplevel_names(before), zwlr_names(zwlr@));
        }
        let ghost from = adopted_from(toplevel_names(before), zwlr_names(zwlr@));
        assert(e@.len() == before.len()) by {
            assert(pair_names(e@).len() == toplevel_names(before).len());
        }
        for i in 0..adopted.len()
            invariant
                from == adopted_from(toplevel_names(before), zwlr_names(zwlr@)),
                from.len() == before.len(),
                adopted@.len() == before.len(),
                z@.len() == zwlr@.len(),
                forall|j: int|
                    0 <= j < z@.len() ==> (#[trigger] z@[j]).0@ == zwlr@[j].app_id@,
                forall|j: int|
                    0 <= j < before.len() ==> (#[trigger] from[j] matches Some(k) ==> 0 <= k
                        < zwlr@.len()),
                forall|j: int|
                    0 <= j < before.len() ==> match from[j] {
                        Some(k) => (#[trigger] adopted@[j]) == Some(z@[k].0),
                        None => adopted@[j] is None,
                    },
                names@.len() == i,
                forall|j: int|
                    0 <= j < i ==> match from[j] {
                        Some(k) => (#[trigger] names@[j]) matches Some(s) && s@
                            == zwlr@[k].app_id@,
                        None => names@[j] is None,
                    },
        {
            let ghost g = from[i as int];
            match adopted[i] {
                Some(a) => {
                    names.push(Some(a.to_owned()));
                },
                None => {
                    names.push(None);
                },
            }
        }
    }
    let ghost from = adopted_from(toplevel_names(before), zwlr_names(zwlr@));
    for i in 0..names.len()
        invariant
            names@.len() == before.len(),
            toplevels@.len() == before.len(),
            forall|j: int|
                0 <= j < before.len() ==> match from[j] {
                    Some(k) => (#[trigger] names@[j]) matches Some(s) && s@ == zwlr@[k].app_id@,
                    None => names@[j] is None,
                },
            forall|j: int| i <= j < before.len() ==> toplevels@[j] == before[j],
            forall|j: int|
                0 <= j < i ==> {
                    &&& (#[trigger] toplevels@[j]).handle == before[j].handle
                    &&& toplevels@[j].identifier == before[j].identifier
                    &&& toplevels@[j].title == before[j].title
                    &&& toplevels@[j].app_id@ == match from[j] {
                        Some(k) => zwlr@[k].app_id@,
                        None => before[j].app_id@,
                    }
                },
    {
        assert(toplevels@[i as int] == before[i as int]);
        if let Some(a) = &names[i] {
            toplevels[i].app_id = a.clone();
        }
    }
}

/// A state array holds the `activated` flag.
pub open spec fn activated_in(state: Seq<u8>, order: ByteOrder) -> bool {
    words(state, 4, order).contains(2)
}

/// Whether a zwlr `state` event carries the `activated` flag, in this byte order. The
/// payload is an array of 32-bit state values.
pub fn has_activated_in(state: &[u8], order: ByteOrder) -> (r: bool)
    ensures
        r == activated_in(state@, order),
{
    holds_word(state, 2, order)
}

/// Whether a zwlr `state` event carries the `activated` flag, in the host byte order.
pub fn has_activated(state: &[u8]) -> (r: bool)
    ensures
        r == activated_in(state@, ByteOrder::Little) || r == activated_in(state@, ByteOrder::Big),
        activated_in(state@, ByteOrder::Little) == activated_in(state@, ByteOrder::Big) ==> r
            == activated_in(state@, ByteOrder::Little),
{
    has_activated_in(state, host_order())
}

/// What zwlr says of a window.
#[derive(Debug)]
pub enum ZwlrEvent {
    AppId(String),
    Title(String),
    /// The window's state; whether `activated` is in it.
    Activated(bool),
    Closed,
    Other,
}

/// Something the compositor names by a protocol object.
pub trait Handled: Sized {
    /// The object.
    spec fn object(&self) -> u64;

    /// The object.
    fn handle_of(&self) -> (r: u64)
        ensures
            r == self.object(),
    ;
}

impl Handled for ZwlrToplevel {
    open spec fn object(&self) -> u64 {
        self.handle
    }

    fn handle_of(&self) -> (r: u64) {
        self.handle
    }
}

impl Handled for Toplevel {
    open spec fn object(&self) -> u64 {
        self.handle
    }

    fn handle_of(&self) -> (r: u64) {
        self.handle
    }
}

impl Handled for Output {
    open spec fn object(&self) -> u64 {
        self.wl_output
    }

    fn handle_of(&self) -> (r: u64) {
        self.wl_output
    }
}

/// Where the first item with this handle stands.
pub open spec fn position_by_handle<T: Handled>(v: Seq<T>, handle: u64) -> Option<int>
    decreases v.len(),
{
    if v.len() == 0 {
        None
    } else if v[0].object() == handle {
        Some(0)
    } else {
        match position_by_handle(v.drop_first(), handle) {
            Some(i) => Some(i + 1),
            None => None,
        }
    }
}

/// Having another handle than this one.
pub open spec fn other_than<T: Handled>(handle: u64) -> spec_fn(T) -> bool {
    |t: T| t.object() != handle
}

/// The items without those that have this handle.
pub open spec fn without_handle<T: Handled>(v: Seq<T>, handle: u64) -> Seq<T> {
    v.filter(other_than(handle))
}

/// Where the first item with this handle stands.
pub fn find_handle<T: Handled>(v: &Vec<T>, handle: u64) -> (r: Option<usize>)
    ensures
        match r {
            Some(i) => position_by_handle(v@, handle) == Some(i as int) && i < v@.len(),
            None => position_by_handle(v@, handle) is None,
        },
{
    assert(v@.skip(0) =~= v@);
    for i in 0..v.len()
        invariant
            position_by_handle(v@, handle) == match position_by_handle(
                v@.skip(i as int),
                handle,
            ) {
                Some(k) => Some(k + i),
                None => None,
            },
    {
        assert(v@.skip(i as int).drop_first() =~= v@.skip(i + 1));
        if v[i].handle_of() == handle {
            return Some(i);
        }
    }
    None
}

/// Remove the items that have this handle.
pub fn remove_handle<T: Handled>(v: &mut Vec<T>, handle: u64)
    ensures
        final(v)@ == without_handle(old(v)@, handle),
{
    let ghost keep = other_than::<T>(handle);
    let ghost all = v@;
    let mut i: usize = 0;
    while i < v.len()
        invariant
            i <= v@.len() <= all.len(),
            keep == other_than::<T>(handle),
            v@ == all.take(all.len() - (v@.len() - i)).filter(keep) + all.skip(
                all.len() - (v@.len() - i),
            ),
            i == all.take(all.len() - (v@.len() - i)).filter(keep).len(),
        decreases v@.len() - i,
    {
        let ghost k = all.len() - (v@.len() - i);
        assert(all.take(k + 1).drop_last() =~= all.take(k));
        assert(v@[i as int] == all[k]);
        reveal_with_fuel(Seq::filter, 2);
        if v[i].handle_of() == handle {
            v.remove(i);
        } else {
            i = i + 1;
        }
        assert(v@ =~= all.take(k + 1).filter(keep) + all.skip(k + 1));
    }
    assert(all.take(all.len() as int) =~= all);
    assert(v@ =~= all.filter(keep));
}

/// The list after one event about the window `handle`.
pub open spec fn after_zwlr_event(v: Seq<ZwlrToplevel>, handle: u64, event: ZwlrEvent) -> Seq<
    ZwlrToplevel,
> {
    match event {
        ZwlrEvent::Closed => without_handle(v, handle),
        _ => match position_by_handle(v, handle) {
            None => v,
            Some(i) => v.update(
                i,
                match event {
                    ZwlrEvent::AppId(a) => ZwlrToplevel { app_id: a, ..v[i] },
                    ZwlrEvent::Title(t) => ZwlrToplevel { title: t, ..v[i] },
                    ZwlrEvent::Activated(on) => ZwlrToplevel { activated: on, ..v[i] },
                    _ => v[i],
                },
            ),
        },
    }
}

/// Apply one zwlr toplevel event to a list of [`ZwlrToplevel`]s.
pub fn apply_zwlr_event(toplevels: &mut Vec<ZwlrToplevel>, handle: u64, event: ZwlrEvent)
    ensures
        final(toplevels)@ == after_zwlr_event(old(toplevels)@, handle, event),
{
    match event {
        ZwlrEvent::Closed => remove_handle(toplevels, handle),
        ZwlrEvent::AppId(a) => {
            if let Some(i) = find_handle(toplevels, handle) {
                toplevels[i].app_id = a;
            }
        },
        ZwlrEvent::Title(t) => {
            if let Some(i) = find_handle(toplevels, handle) {
                toplevels[i].title = t;
            }
        },
        ZwlrEvent::Activated(on) => {
            if let Some(i) = find_handle(toplevels, handle) {
                toplevels[i].activated = on;
            }
        },
        ZwlrEvent::Other => {
            let ghost v = toplevels@;
            if let Some(i) = find_handle(toplevels, handle) {
                assert(v.update(i as int, v[i as int]) =~= v);
            }
        },
    }
}

/// A window the compositor has announced but not finished describing.
#[derive(Debug)]
pub struct PendingToplevel {
    /// The protocol handle.
    pub handle: u64,
    /// Its stable identifier, once told.
    pub identifier: String,
    /// Its title, once told.
    pub title: String,
    /// Its application id, once told.
    pub app_id: String,
}

impl Handled for PendingToplevel {
    open spec fn object(&self) -> u64 {
        self.handle
    }

    fn handle_of(&self) -> (r: u64) {
        self.handle
    }
}

/// What the compositor says of a window on the `ext` list.
#[derive(Debug)]
pub enum ToplevelEvent {
    Identifier(String),
    Title(String),
    AppId(String),
    /// The description is complete.
    Done,
    /// The window is gone.
    Closed,
    Other,
}

/// The windows of `ext-foreign-toplevel-list`: those fully described, in the order the
/// compositor finished describing them, and those it has only announced.
#[derive(Debug)]
pub struct WindowList {
    /// Announced, not yet described.
    pub pending: Vec<PendingToplevel>,
    /// Capturable.
    pub toplevels: Vec<Toplevel>,
}

impl WindowList {
    /// What becomes of the announced windows.
    pub open spec fn pending_after(self, handle: u64, event: ToplevelEvent) -> Seq<
        PendingToplevel,
    > {
        let v = self.pending@;
        match (event, position_by_handle(v, handle)) {
            (ToplevelEvent::Closed, _) => without_handle(v, handle),
            (_, None) => v,
            (ToplevelEvent::Identifier(s), Some(i)) => v.update(
                i,
                PendingToplevel { identifier: s, ..v[i] },
            ),
            (ToplevelEvent::Title(s), Some(i)) => v.update(i, PendingToplevel { title: s, ..v[i] }),
            (ToplevelEvent::AppId(s), Some(i)) => v.update(i, PendingToplevel { app_id: s, ..v[i] }),
            (ToplevelEvent::Done, Some(i)) => v.remove(i),
            (ToplevelEvent::Other, Some(_)) => v,
        }
    }

    /// What becomes of the capturable windows.
    pub open spec fn toplevels_after(self, handle: u64, event: ToplevelEvent) -> Seq<Toplevel> {
        let v = self.toplevels@;
        match (event, position_by_handle(self.pending@, handle)) {
            (ToplevelEvent::Closed, _) => without_handle(v, handle),
            (ToplevelEvent::Done, Some(i)) => {
                let p = self.pending@[i];
                v.push(
                    Toplevel {
                        handle: p.handle,
                        identifier: p.identifier,
                        title: p.title,
                        app_id: p.app_id,
                    },
                )
            },
            _ => v,
        }
    }

    /// No window yet.
    pub fn new() -> (r: WindowList)
        ensures
            r.pending@.len() == 0,
            r.toplevels@.len() == 0,
    {
        WindowList { pending: Vec::new(), toplevels: Vec::new() }
    }

    /// The compositor announced a window.
    pub fn announce(&mut self, handle: u64)
        ensures
            final(self).toplevels == old(self).toplevels,
            final(self).pending@.len() == old(self).pending@.len() + 1,
            final(self).pending@.drop_last() == old(self).pending@,
            ({
                let p = final(self).pending@.last();
                p.handle == handle && p.identifier@.len() == 0 && p.title@.len() == 0
                    && p.app_id@.len() == 0
            }),
    {
        self.pending.push(
            PendingToplevel {
                handle,
                identifier: String::new(),
                title: String::new(),
                app_id: String::new(),
            },
        );
        assert(self.pending@.drop_last() =~= old(self).pending@);
    }

    /// Apply what the compositor says of the window `handle`. A window is described while
    /// it is pending, becomes capturable with `Done`, and leaves with `Closed` whichever
    /// of the two it is.
    pub fn event(&mut self, handle: u64, event: ToplevelEvent)
        ensures
            final(self).pending@ == old(self).pending_after(handle, event),
            final(self).toplevels@ == old(self).toplevels_after(handle, event),
    {
        let at = find_handle(&self.pending, handle);
        match event {
            ToplevelEvent::Identifier(s) => {
                if let Some(i) = at {
                    self.pending[i].identifier = s;
                }
            },
            ToplevelEvent::Title(s) => {
                if let Some(i) = at {
                    self.pending[i].title = s;
                }
            },
            ToplevelEvent::AppId(s) => {
                if let Some(i) = at {
                    self.pending[i].app_id = s;
                }
            },
            ToplevelEvent::Done => {
                if let Some(i) = at {
                    let p = self.pending.remove(i);
                    self.toplevels.push(
                        Toplevel {
                            handle: p.handle,
                            identifier: p.identifier,
                            title: p.title,
                            app_id: p.app_id,
                        },
                    );
                }
            },
            ToplevelEvent::Closed => {
                remove_handle(&mut self.pending, handle);
                remove_handle(&mut self.toplevels, handle);
            },
            ToplevelEvent::Other => {},
        }
    }
}

/// A closed window is on neither list any more.
pub proof fn a_closed_window_is_gone(list: WindowList, handle: u64, i: int)
    ensures
        0 <= i < list.toplevels_after(handle, ToplevelEvent::Closed).len() ==> (
        #[trigger] list.toplevels_after(handle, ToplevelEvent::Closed)[i]).handle != handle,
        0 <= i < list.pending_after(handle, ToplevelEvent::Closed).len() ==> (
        #[trigger] list.pending_after(handle, ToplevelEvent::Closed)[i]).handle != handle,
{
    broadcast use vstd::seq_lib::group_filter_ensures;

}

/// What the compositor says of an output, through `wl_output` or `xdg-output`.
#[derive(Debug)]
pub enum OutputEvent {
    /// `wl_output` placement and transform; an unknown transform is a normal one.
    Geometry { x: i32, y: i32, transform: Option<Transform> },
    /// A mode the output has, and whether it is the active one.
    Mode { current: bool, width: i32, height: i32 },
    Scale(i32),
    Name(String),
    /// `xdg-output`'s placement, which is authoritative.
    LogicalPosition { x: i32, y: i32 },
    /// `xdg-output`'s size, which is authoritative.
    LogicalSize { width: i32, height: i32 },
    Other,
}

impl OutputEvent {
    /// Whether the event describes the output at all.
    pub open spec fn describes(self) -> bool {
        match self {
            OutputEvent::Mode { current, .. } => current,
            OutputEvent::Other => false,
            _ => true,
        }
    }

    /// The output once the event is taken in.
    pub open spec fn applied(self, o: Output) -> Output {
        match self {
            OutputEvent::Geometry { x, y, transform } => {
                let t = match transform {
                    Some(t) => t,
                    None => Transform::Normal,
                };
                // The position is only a fallback; xdg-output is authoritative.
                if o.have_xdg {
                    Output { transform: t, ..o }
                } else {
                    Output { transform: t, logical_x: x, logical_y: y, ..o }
                }
            },
            OutputEvent::Mode { current, width, height } => if current {
                Output { phys_width: width, phys_height: height, ..o }
            } else {
                o
            },
            OutputEvent::Scale(factor) => Output {
                scale: if factor < 1 {
                    1
                } else {
                    factor
                },
                ..o
            },
            OutputEvent::Name(name) => Output { name, ..o },
            OutputEvent::LogicalPosition { x, y } => Output {
                logical_x: x,
                logical_y: y,
                have_xdg: true,
                ..o
            },
            OutputEvent::LogicalSize { width, height } => Output {
                logical_w: width,
                logical_h: height,
                have_xdg: true,
                ..o
            },
            OutputEvent::Other => o,
        }
    }
}

/// An output nothing is known of yet: neutral geometry.
pub open spec fn neutral(o: Output, handle: u64) -> bool {
    &&& o.wl_output == handle
    &&& o.name@.len() == 0
    &&& o.logical_x == 0 && o.logical_y == 0 && o.logical_w == 0 && o.logical_h == 0
    &&& o.phys_width == 0 && o.phys_height == 0
    &&& o.scale == 1
    &&& o.transform == Transform::Normal
    &&& !o.have_xdg
}

/// `after` is the list `before` once an event about the output `handle` is taken in: an
/// output is created on first sight, so its description can come in any order.
pub open spec fn output_event_taken(
    before: Seq<Output>,
    after: Seq<Output>,
    handle: u64,
    event: OutputEvent,
) -> bool {
    if !event.describes() {
        after == before
    } else {
        match position_by_handle(before, handle) {
            Some(i) => after == before.update(i, event.applied(before[i])),
            None => after.len() == before.len() + 1 && after.drop_last() == before && exists|
                o: Output,
            |
                #[trigger] neutral(o, handle) && after.last() == event.applied(o),
        }
    }
}

/// The entry for this output, created with neutral geometry on first sight.
fn output_entry(outputs: &mut Vec<Output>, handle: u64) -> (i: usize)
    ensures
        match position_by_handle(old(outputs)@, handle) {
            Some(k) => i == k && final(outputs)@ == old(outputs)@,
            None => i == old(outputs)@.len() && final(outputs)@.len() == i + 1
                && final(outputs)@.drop_last() == old(outputs)@ && neutral(
                final(outputs)@[i as int],
                handle,
            ),
        },
        i < final(outputs)@.len(),
{
    if let Some(i) = find_handle(outputs, handle) {
        return i;
    }
    let i: usize = outputs.len();
    outputs.push(
        Output {
            wl_output: handle,
            name: String::new(),
            logical_x: 0,
            logical_y: 0,
            logical_w: 0,
            logical_h: 0,
            phys_width: 0,
            phys_height: 0,
            scale: 1,
            transform: Transform::Normal,
            have_xdg: false,
        },
    );
    assert(outputs@.drop_last() =~= old(outputs)@);
    i
}

/// Take in one event about the output `handle`.
pub fn apply_output_event(outputs: &mut Vec<Output>, handle: u64, event: OutputEvent)
    ensures
        output_event_taken(old(outputs)@, final(outputs)@, handle, event),
{
    match event {
        OutputEvent::Mode { current: false, .. } | OutputEvent::Other => {
            return ;
        },
        _ => {},
    }
    let i: usize = output_entry(outputs, handle);
    let ghost v = outputs@;
    let ghost was = outputs@[i as int];
    match event {
        OutputEvent::Geometry { x, y, transform } => {
            outputs[i].transform = match transform {
                Some(t) => t,
                None => Transform::Normal,
            };
            if !outputs[i].have_xdg {
                outputs[i].logical_x = x;
                outputs[i].logical_y = y;
            }
        },
        OutputEvent::Mode { current, width, height } => {
            outputs[i].phys_width = width;
            outputs[i].phys_height = height;
        },
        OutputEvent::Scale(factor) => {
            outputs[i].scale = if factor < 1 {
                1
            } else {
                factor
            };
        },
        OutputEvent::Name(name) => {
            outputs[i].name = name;
        },
        OutputEvent::LogicalPosition { x, y } => {
            outputs[i].logical_x = x;
            outputs[i].logical_y = y;
            outputs[i].have_xdg = true;
        },
        OutputEvent::LogicalSize { width, height } => {
            outputs[i].logical_w = width;
            outputs[i].logical_h = height;
            outputs[i].have_xdg = true;
        },
        OutputEvent::Other => {},
    }
    assert(outputs@ =~= v.update(i as int, event.applied(was)));
    assert(v.update(i as int, event.applied(was)).drop_last() =~= v.drop_last() || i + 1 < v.len());
}

/// Where the `n`-th window (from 0) called `who` stands, from `k` on.
pub open spec fn nth_named(windows: Seq<Names>, who: Names, n: nat, k: int) -> Option<int>
    decreases windows.len() - k,
{
    if k < 0 || k >= windows.len() {
        None
    } else if windows[k] == who {
        if n == 0 {
            Some(k)
        } else {
            nth_named(windows, who, (n - 1) as nat, k + 1)
        }
    } else {
        nth_named(windows, who, n, k + 1)
    }
}

/// The window an identity stands for: the one with its ordinal, or failing that the
/// first with its names.
pub open spec fn window_for(windows: Seq<Names>, who: Names, dup_index: nat) -> Option<int> {
    match nth_named(windows, who, dup_index, 0) {
        Some(i) => Some(i),
        None => nth_named(windows, who, 0, 0),
    }
}

/// Where the first activated window stands.
pub open spec fn first_activated(v: Seq<ZwlrToplevel>, k: int) -> Option<int>
    decreases v.len() - k,
{
    if k < 0 || k >= v.len() {
        None
    } else if v[k].activated {
        Some(k)
    } else {
        first_activated(v, k + 1)
    }
}

/// The window that holds the focus right now, or `None` if no window does.
///
/// Portable across wlroots compositors: it reads zwlr's `activated` state rather
/// than a compositor-specific IPC. A multi-seat compositor can activate one window per
/// seat; the first is as good a choice as any, since a client cannot tell which seat is
/// "ours".
pub fn active_window(toplevels: &Vec<ZwlrToplevel>) -> (r: Option<WindowIdentity>)
    ensures
        match first_activated(toplevels@, 0) {
            Some(i) => r matches Some(w) && w.app_id@ == toplevels@[i].app_id@ && w.title@
                == toplevels@[i].title@ && w.dup_index == count_named(
                zwlr_names(toplevels@),
                toplevels@[i].names(),
                i,
            ),
            None => r is None,
        },
{
    for i in 0..toplevels.len()
        invariant
            first_activated(toplevels@, 0) == first_activated(toplevels@, i as int),
    {
        if toplevels[i].activated {
            let t = &toplevels[i];
            let mut n: usize = 0;
            for j in 0..i
                invariant
                    i < toplevels@.len(),
                    *t == toplevels@[i as int],
                    n <= j,
                    n == count_named(zwlr_names(toplevels@), t.names(), j as int),
            {
                let o = &toplevels[j];
                if o.app_id == t.app_id && o.title == t.title {
                    n = n + 1;
                }
            }
            return Some(
                WindowIdentity { app_id: t.app_id.clone(), title: t.title.clone(), dup_index: n },
            );
        }
    }
    None
}

/// The first `n` windows called `who` passed over, from `k` on.
proof fn nth_named_after(windows: Seq<Names>, i: int, k: int)
    requires
        0 <= k <= i < windows.len(),
    ensures
        nth_named(
            windows,
            windows[i],
            (count_named(windows, windows[i], i) - count_named(windows, windows[i], k)) as nat,
            k,
        ) == Some(i),
        count_named(windows, windows[i], k) <= count_named(windows, windows[i], i),
    decreases i - k,
{
    if k < i {
        nth_named_after(windows, i, k + 1);
    }
}

/// The identity read off a window leads back to that window.
pub proof fn an_identity_leads_back_to_its_window(windows: Seq<Names>, i: int)
    requires
        0 <= i < windows.len(),
    ensures
        window_for(windows, windows[i], count_named(windows, windows[i], i)) == Some(i),
{
    nth_named_after(windows, i, 0);
}

/// How to focus a window.
#[derive(Clone, Copy, Debug, PartialEq, Eq, Structural)]
pub enum Activation {
    /// Ask zwlr to activate this handle.
    Zwlr(u64),
    /// The compositor has no zwlr toplevel manager: ask COSMIC's.
    Cosmic,
}

/// Focus a window, through whichever activation protocol the compositor offers.
///
/// `zwlr-foreign-toplevel-management` comes first: it is the portable one, and the one
/// [`active_window`] reads. `toplevels` is what it lists, or `None` where the compositor
/// does not have it — cosmic-comp — and the COSMIC toplevel manager takes over,
/// addressing the window by its identifier alone.
///
/// zwlr exposes no identifier, so the target is matched on app-id + title, with
/// `dup_index` selecting among identical windows by creation order.
pub fn activate_window(toplevels: Option<&Vec<ZwlrToplevel>>, identity: &WindowIdentity) -> (r:
    Result<Activation, CaptureError>)
    ensures
        match toplevels {
            None => r == Ok::<Activation, CaptureError>(Activation::Cosmic),
            Some(v) => match window_for(
                zwlr_names(v@),
                (identity.app_id@, identity.title@),
                identity.dup_index as nat,
            ) {
                Some(i) => r == Ok::<Activation, CaptureError>(Activation::Zwlr(v@[i].handle)),
                None => r matches Err(CaptureError::Backend { context, source }) && context@
                    == "window to activate not found: "@ + identity.app_id@ + " / "@
                    + identity.title@ && source@.len() == 0,
            },
        },
{
    let v = match toplevels {
        None => {
            return Ok(Activation::Cosmic);
        },
        Some(v) => v,
    };
    let ghost names = zwlr_names(v@);
    let ghost who = (identity.app_id@, identity.title@);
    let mut first: Option<usize> = None;
    let mut left: usize = identity.dup_index;
    for i in 0..v.len()
        invariant
            toplevels == Some(v),
            names == zwlr_names(v@),
            who == (identity.app_id@, identity.title@),
            nth_named(names, who, identity.dup_index as nat, 0) == nth_named(
                names,
                who,
                left as nat,
                i as int,
            ),
            match first {
                Some(k) => k < v@.len() && nth_named(names, who, 0, 0) == Some(k as int),
                None => nth_named(names, who, 0, 0) == nth_named(names, who, 0, i as int),
            },
    {
        if v[i].app_id == identity.app_id && v[i].title == identity.title {
            if first.is_none() {
                first = Some(i);
            }
            if left == 0 {
                return Ok(Activation::Zwlr(v[i].handle));
            }
            left = left - 1;
        }
    }
    match first {
        Some(i) => Ok(Activation::Zwlr(v[i].handle)),
        None => {
            let mut m = String::from_str("window to activate not found: ");
            m.append(identity.app_id.as_str());
            m.append(" / ");
            m.append(identity.title.as_str());
            Err(CaptureError::msg(m.as_str()))
        },
    }
}

/// A global of that name is there.
pub open spec fn is_there(globals: Seq<(String, u32)>, name: Seq<char>) -> bool {
    exists|i: int| 0 <= i < globals.len() && (#[trigger] globals[i]).0@ == name
}

/// The newer protocol is driven wherever both its globals are, unless the older one is there and
/// asked for; the older where the newer is not; and none where neither is.
pub proof fn the_newer_protocol_is_preferred(
    globals: &[(String, u32)],
    forced: bool,
    r: Option<Protocol>,
)
    requires
        call_ensures(select_protocol, (globals, forced), r),
    ensures
        ({
            let newer = is_there(globals@, "ext_image_copy_capture_manager_v1"@) && is_there(
                globals@,
                "ext_output_image_capture_source_manager_v1"@,
            );
            let older = is_there(globals@, "zwlr_screencopy_manager_v1"@);
            &&& newer && !forced ==> r == Some(Protocol::ImageCopyCapture)
            &&& newer && !older ==> r == Some(Protocol::ImageCopyCapture)
            &&& older && (forced || !newer) ==> r == Some(Protocol::Screencopy)
            &&& !older && !newer ==> r is None
        }),
{
}

/// A quarter of a turn, mirrored or not, makes a capture's width of the mode's height and its
/// height of the width; nothing else does.
pub proof fn a_quarter_turn_swaps_the_sides(o: Output, r: (i32, i32))
    requires
        call_ensures(Output::capture_size, (&o,), r),
    ensures
        match o.transform {
            Transform::Normal | Transform::Rotated180 | Transform::Flipped
            | Transform::Flipped180 => r.0 == o.phys_width && r.1 == o.phys_height,
            Transform::Rotated90 | Transform::Rotated270 | Transform::Flipped90
            | Transform::Flipped270 => r.0 == o.phys_height && r.1 == o.phys_width,
        },
{
}

/// Where the compositor does not say how large an output is, a point is as many pixels of a
/// capture as the output's scale, along both sides.
pub proof fn a_point_is_as_many_pixels_as_the_scale(
    o: Output,
    size: (i32, i32),
    pixels: (i32, i32),
)
    requires
        call_ensures(Output::logical_size, (&o,), size),
        call_ensures(Output::capture_size, (&o,), pixels),
        !o.have_xdg || o.logical_w <= 0 || o.logical_h <= 0,
        o.scale >= 1,
        o.phys_width >= 0,
        o.phys_height >= 0,
    ensures
        size.0 * o.scale <= pixels.0 < (size.0 + 1) * o.scale,
        size.1 * o.scale <= pixels.1 < (size.1 + 1) * o.scale,
{
    let s = o.scale as int;
    divided(o.phys_width as int, s);
    divided(o.phys_height as int, s);
}

proof fn divided(n: int, s: int)
    requires
        s >= 1,
        0 <= n,
    ensures
        0 <= n / s <= n,
        (n / s) * s <= n < (n / s + 1) * s,
{
    assert(0 <= n / s <= n && (n / s) * s <= n < (n / s + 1) * s) by (nonlinear_arith)
        requires
            s >= 1,
            0 <= n,
    ;
}

/// An output lies where the compositor puts it and is as large as it says; what it says is
/// believed over what the mode would give.
pub proof fn an_output_lies_where_the_compositor_says(o: Output, r: Region)
    requires
        call_ensures(Output::logical_rect, (&o,), r),
    ensures
        r.x == o.logical_x,
        r.y == o.logical_y,
        o.have_xdg && o.logical_w > 0 && o.logical_h > 0 ==> r.w == o.logical_w && r.h
            == o.logical_h,
{
}

/// Once the compositor's own word on an output's place and size is in, neither the mode nor the
/// monitor's own geometry moves or resizes it.
pub proof fn the_compositors_word_stands(
    o: Output,
    x: i32,
    y: i32,
    width: i32,
    height: i32,
    later: OutputEvent,
)
    requires
        width > 0,
        height > 0,
        later is Geometry || later is Mode || later is Scale || later is Name || later is Other,
    ensures
        ({
            let told = (OutputEvent::LogicalSize { width, height }).applied(
                (OutputEvent::LogicalPosition { x, y }).applied(o),
            );
            let r = later.applied(told).rect();
            r.x == x && r.y == y && r.w == width && r.h == height
        }),
{
}

/// Without that word, an output is placed by its geometry and sized by its mode, its scale and
/// its transform.
pub proof fn without_it_the_mode_counts(
    o: Output,
    x: i32,
    y: i32,
    width: i32,
    height: i32,
    factor: i32,
    t: Transform,
)
    requires
        !o.have_xdg,
        width >= 0,
        height >= 0,
        factor >= 1,
    ensures
        ({
            let told = OutputEvent::Scale(factor).applied(
                (OutputEvent::Mode { current: true, width, height }).applied(
                    (OutputEvent::Geometry { x, y, transform: Some(t) }).applied(o),
                ),
            );
            let r = told.rect();
            &&& r.x == x && r.y == y
            &&& t == Transform::Normal ==> r.w == width / factor && r.h == height / factor
            &&& t == Transform::Rotated90 ==> r.w == height / factor && r.h == width / factor
            &&& (OutputEvent::Mode { current: false, width, height }).applied(o) == o
        }),
{
    divided(width as int, factor as int);
    divided(height as int, factor as int);
}

/// What is found by a handle has it, and nothing before it does.
pub proof fn what_is_found_has_the_handle<T: Handled>(v: Seq<T>, handle: u64)
    ensures
        match position_by_handle(v, handle) {
            Some(i) => 0 <= i < v.len() && v[i].object() == handle && forall|j: int|
                0 <= j < i ==> (#[trigger] v[j]).object() != handle,
            None => forall|j: int| 0 <= j < v.len() ==> (#[trigger] v[j]).object() != handle,
        },
    decreases v.len(),
{
    if v.len() > 0 && v[0].object() != handle {
        let rest = v.drop_first();
        what_is_found_has_the_handle(rest, handle);
        assert forall|j: int| 1 <= j < v.len() implies v[j] == rest[j - 1] by {}
        if position_by_handle(rest, handle) is None {
            assert forall|j: int| 0 <= j < v.len() implies (#[trigger] v[j]).object() != handle by {
                if j > 0 {
                    assert(v[j] == rest[j - 1]);
                }
            }
        } else {
            let i = position_by_handle(rest, handle)->0;
            assert forall|j: int| 0 <= j < i + 1 implies (#[trigger] v[j]).object() != handle by {
                if j > 0 {
                    assert(v[j] == rest[j - 1]);
                }
            }
        }
    }
}

/// What the older list says of a window changes that window and no other: its name, its title or
/// whether it has the focus.
pub proof fn an_event_is_about_its_window(
    v: Seq<ZwlrToplevel>,
    handle: u64,
    event: ZwlrEvent,
    i: int,
)
    requires
        0 <= i < v.len(),
        event !is Closed,
        forall|j: int| 0 <= j < i ==> (#[trigger] v[j]).handle != handle,
    ensures
        ({
            let after = after_zwlr_event(v, handle, event);
            &&& after.len() == v.len()
            &&& after[i].handle == v[i].handle
            &&& v[i].handle != handle ==> after[i] == v[i]
            &&& v[i].handle == handle ==> match event {
                ZwlrEvent::AppId(a) => after[i].app_id == a && after[i].title == v[i].title
                    && after[i].activated == v[i].activated,
                ZwlrEvent::Title(t) => after[i].title == t && after[i].app_id == v[i].app_id
                    && after[i].activated == v[i].activated,
                ZwlrEvent::Activated(on) => after[i].activated == on && after[i].title
                    == v[i].title && after[i].app_id == v[i].app_id,
                _ => after[i] == v[i],
            }
        }),
{
    what_is_found_has_the_handle(v, handle);
}

/// Closing a window takes it off the older list, and keeps every other.
pub proof fn closing_takes_one_window_off(v: Seq<ZwlrToplevel>, handle: u64, t: ZwlrToplevel)
    ensures
        after_zwlr_event(v, handle, ZwlrEvent::Closed).contains(t) <==> v.contains(t) && t.handle
            != handle,
{
    without_handle_keeps_the_rest(v, handle, t);
}

proof fn without_handle_keeps_the_rest<T: Handled>(v: Seq<T>, handle: u64, t: T)
    ensures
        without_handle(v, handle).contains(t) <==> v.contains(t) && t.object() != handle,
{
    broadcast use vstd::seq_lib::group_filter_ensures;

    let keep = other_than::<T>(handle);
    if v.filter(keep).contains(t) {
        v.lemma_filter_contains_rev(keep, t);
        let i = choose|i: int| 0 <= i < v.filter(keep).len() && v.filter(keep)[i] == t;
        assert(keep(v.filter(keep)[i]));
    }
    if v.contains(t) && t.object() != handle {
        let i = choose|i: int| 0 <= i < v.len() && v[i] == t;
        v.lemma_filter_contains(keep, i);
    }
}

/// A window that was announced and described becomes capturable under what it was described as,
/// last of all, and no other window changes.
pub proof fn a_described_window_becomes_capturable(
    list: WindowList,
    handle: u64,
    identifier: String,
    title: String,
    app_id: String,
    a: WindowList,
    b: WindowList,
    c: WindowList,
)
    requires
        position_by_handle(list.pending@, handle) is Some,
        a.pending@ == list.pending_after(handle, ToplevelEvent::Identifier(identifier)),
        a.toplevels@ == list.toplevels_after(handle, ToplevelEvent::Identifier(identifier)),
        b.pending@ == a.pending_after(handle, ToplevelEvent::Title(title)),
        b.toplevels@ == a.toplevels_after(handle, ToplevelEvent::Title(title)),
        c.pending@ == b.pending_after(handle, ToplevelEvent::AppId(app_id)),
        c.toplevels@ == b.toplevels_after(handle, ToplevelEvent::AppId(app_id)),
    ensures
        c.toplevels@ == list.toplevels@,
        c.toplevels_after(handle, ToplevelEvent::Done).drop_last() == list.toplevels@,
        c.toplevels_after(handle, ToplevelEvent::Done).last() == (Toplevel {
            handle,
            identifier,
            title,
            app_id,
        }),
        c.pending_after(handle, ToplevelEvent::Done).len() == list.pending@.len() - 1,
{
    let i = position_by_handle(list.pending@, handle)->0;
    what_is_found_has_the_handle(list.pending@, handle);
    what_is_found_has_the_handle(a.pending@, handle);
    what_is_found_has_the_handle(b.pending@, handle);
    what_is_found_has_the_handle(c.pending@, handle);
    same_position(list.pending@, a.pending@, handle);
    same_position(a.pending@, b.pending@, handle);
    same_position(b.pending@, c.pending@, handle);
    assert(c.toplevels_after(handle, ToplevelEvent::Done).drop_last() =~= list.toplevels@);
}

proof fn same_position<T: Handled>(v: Seq<T>, w: Seq<T>, handle: u64)
    requires
        v.len() == w.len(),
        forall|j: int| 0 <= j < v.len() ==> (#[trigger] v[j]).object() == w[j].object(),
    ensures
        position_by_handle(v, handle) == position_by_handle(w, handle),
{
    what_is_found_has_the_handle(v, handle);
    what_is_found_has_the_handle(w, handle);
    match (position_by_handle(v, handle), position_by_handle(w, handle)) {
        (Some(i), Some(j)) => {
            if i < j {
                assert(v[i].object() == w[i].object());
            }
            if j < i {
                assert(v[j].object() == w[j].object());
            }
        },
        (Some(i), None) => {
            assert(v[i].object() == w[i].object());
        },
        (None, Some(j)) => {
            assert(v[j].object() == w[j].object());
        },
        (None, None) => {},
    }
}

/// A window leaves the list of the capturable ones when it closes, and only that one does.
pub proof fn closing_keeps_the_other_windows(list: WindowList, handle: u64, t: Toplevel)
    ensures
        list.toplevels_after(handle, ToplevelEvent::Closed).contains(t) <==> list.toplevels@.contains(
            t,
        ) && t.handle != handle,
{
    without_handle_keeps_the_rest(list.toplevels@, handle, t);
}

/// Focusing what had the focus focuses that very window: the identity that is read off the
/// window with the focus leads back to it, among windows of the same names too.
pub proof fn what_had_the_focus_gets_it_back(
    v: Vec<ZwlrToplevel>,
    w: Option<WindowIdentity>,
    r: Result<Activation, CaptureError>,
    i: int,
)
    requires
        call_ensures(active_window, (&v,), w),
        w matches Some(id) ==> call_ensures(activate_window, (Some(&v), &id), r),
        0 <= i < v@.len(),
        v@[i].activated,
        forall|j: int| 0 <= j < i ==> !(#[trigger] v@[j]).activated,
    ensures
        w matches Some(id) && id.app_id@ == v@[i].app_id@ && id.title@ == v@[i].title@,
        r == Ok::<Activation, CaptureError>(Activation::Zwlr(v@[i].handle)),
{
    first_activated_is(v@, 0, i);
    an_identity_leads_back_to_its_window(zwlr_names(v@), i);
    assert(zwlr_names(v@)[i] == v@[i].names());
}

proof fn first_activated_is(v: Seq<ZwlrToplevel>, k: int, i: int)
    requires
        0 <= k <= i < v.len(),
        v[i].activated,
        forall|j: int| k <= j < i ==> !(#[trigger] v[j]).activated,
    ensures
        first_activated(v, k) == Some(i),
    decreases i - k,
{
    if k < i {
        assert(!v[k].activated);
        first_activated_is(v, k + 1, i);
    }
}

/// No window has the focus where none is activated.
pub proof fn without_focus_there_is_no_active_window(
    v: Vec<ZwlrToplevel>,
    w: Option<WindowIdentity>,
)
    requires
        call_ensures(active_window, (&v,), w),
        forall|j: int| 0 <= j < v@.len() ==> !(#[trigger] v@[j]).activated,
    ensures
        w is None,
{
    none_activated(v@, 0);
}

proof fn none_activated(v: Seq<ZwlrToplevel>, k: int)
    requires
        0 <= k,
        forall|j: int| 0 <= j < v.len() ==> !(#[trigger] v[j]).activated,
    ensures
        first_activated(v, k) is None,
    decreases v.len() - k,
{
    if k < v.len() {
        assert(!v[k].activated);
        none_activated(v, k + 1);
    }
}

/// What is focused has the names that were asked for; where there is such a window one is, and
/// where there is none nothing is.
pub proof fn what_is_focused_has_the_names_asked_for(
    v: Vec<ZwlrToplevel>,
    id: WindowIdentity,
    r: Result<Activation, CaptureError>,
)
    requires
        call_ensures(activate_window, (Some(&v), &id), r),
    ensures
        r is Ok <==> exists|i: int|
            0 <= i < v@.len() && (#[trigger] v@[i]).app_id@ == id.app_id@ && v@[i].title@
                == id.title@,
        r matches Ok(a) ==> exists|i: int|
            0 <= i < v@.len() && (#[trigger] v@[i]).app_id@ == id.app_id@ && v@[i].title@
                == id.title@ && a == Activation::Zwlr(v@[i].handle),
{
    let who = (id.app_id@, id.title@);
    let names = zwlr_names(v@);
    nth_has_the_names(names, who, id.dup_index as nat, 0);
    nth_has_the_names(names, who, 0, 0);
    assert forall|i: int| 0 <= i < v@.len() implies names[i] == (#[trigger] v@[i]).names() by {}
    if let Some(i) = window_for(names, who, id.dup_index as nat) {
        assert(v@[i].names() == who);
    } else {
        assert forall|i: int| 0 <= i < v@.len() implies !((#[trigger] v@[i]).app_id@ == id.app_id@
            && v@[i].title@ == id.title@) by {
            assert(names[i] == v@[i].names());
        }
    }
}

proof fn nth_has_the_names(names: Seq<Names>, who: Names, n: nat, k: int)
    requires
        0 <= k,
    ensures
        nth_named(names, who, n, k) matches Some(i) ==> k <= i < names.len() && names[i] == who,
        n == 0 && nth_named(names, who, n, k) is None ==> forall|i: int|
            k <= i < names.len() ==> #[trigger] names[i] != who,
    decreases names.len() - k,
{
    if k < names.len() {
        if names[k] == who {
            if n > 0 {
                nth_has_the_names(names, who, (n - 1) as nat, k + 1);
            }
        } else {
            nth_has_the_names(names, who, n, k + 1);
        }
    }
}

/// A window with its own name claims its counterpart: nothing adopts the name of the only window
/// that is called like one of the list.
pub proof fn a_named_window_keeps_its_counterpart(
    ext: Seq<Names>,
    zwlr: Seq<Names>,
    j: int,
    k: int,
    i: int,
)
    requires
        0 <= j < ext.len(),
        0 <= k < zwlr.len(),
        0 <= i < ext.len(),
        ext[j].0.len() > 0,
        zwlr[k] == ext[j],
        forall|m: int| 0 <= m < zwlr.len() && m != k ==> #[trigger] zwlr[m] != zwlr[k],
    ensures
        adopted_from(ext, zwlr)[i] != Some(k),
{
    let w = zwlr[k];
    let n = ext.len() as int;
    let m = zwlr.len() as int;
    claims_counted(ext, zwlr, w, n);
    counted_once(zwlr, w, k, m);
    counted_at_least(ext, w, j, n);
    taken_of_all(zwlr, claimed(ext, zwlr, n), w, m);
    assert(claimed(ext, zwlr, n)[k]);
    adoption_is_one_to_one(ext, zwlr);
}

proof fn counted_at_least(v: Seq<Names>, w: Names, j: int, n: int)
    requires
        0 <= j < n <= v.len(),
        v[j] == w,
    ensures
        count_named(v, w, n) >= 1,
    decreases n,
{
    if j < n - 1 {
        counted_at_least(v, w, j, n - 1);
    }
}

proof fn counted_once(v: Seq<Names>, w: Names, k: int, n: int)
    requires
        0 <= n <= v.len(),
        forall|m: int| 0 <= m < v.len() && m != k ==> #[trigger] v[m] != w,
    ensures
        count_named(v, w, n) <= 1,
        n <= k ==> count_named(v, w, n) == 0,
    decreases n,
{
    if n > 0 {
        counted_once(v, w, k, n - 1);
    }
}

/// A nameless window takes the name of the window that has its title, where no window of the
/// list is called like that one and no other nameless one has the title.
pub proof fn a_nameless_window_takes_its_counterparts_name(
    ext: Seq<Names>,
    zwlr: Seq<Names>,
    i: int,
    k: int,
)
    requires
        0 <= i < ext.len(),
        0 <= k < zwlr.len(),
        ext[i].0.len() == 0,
        zwlr[k].0.len() > 0,
        zwlr[k].1 == ext[i].1,
        forall|m: int| 0 <= m < zwlr.len() && m != k ==> (#[trigger] zwlr[m]).1 != ext[i].1,
        forall|j: int| 0 <= j < ext.len() && j != i ==> (#[trigger] ext[j]).1 != ext[i].1,
    ensures
        adopted_from(ext, zwlr)[i] == Some(k),
{
    let n = ext.len() as int;
    unclaimed(ext, zwlr, i, k, n);
    untaken(ext, zwlr, i, k, i);
    adopting_is_sound(ext, zwlr, i);
    let taken = adopting(ext, zwlr, i).0;
    first_free_is_free(zwlr, taken, ext[i], 0);
    if first_free_from(zwlr, taken, ext[i], 0) is None {
        nothing_free(zwlr, taken, ext[i], 0);
        assert(counterpart(zwlr[k], ext[i]));
        assert(taken[k]);
    }
    adopting_is_stable(ext, zwlr, i + 1, n);
    adopting_is_sound(ext, zwlr, i + 1);
    assert(adopting(ext, zwlr, i + 1).1[i] == Some(k));
}

proof fn unclaimed(ext: Seq<Names>, zwlr: Seq<Names>, i: int, k: int, n: int)
    requires
        0 <= n <= ext.len(),
        0 <= i < ext.len(),
        0 <= k < zwlr.len(),
        ext[i].0.len() == 0,
        zwlr[k].1 == ext[i].1,
        forall|j: int| 0 <= j < ext.len() && j != i ==> (#[trigger] ext[j]).1 != ext[i].1,
    ensures
        !claimed(ext, zwlr, n)[k],
    decreases n,
{
    if n > 0 {
        unclaimed(ext, zwlr, i, k, n - 1);
        claimed_len(ext, zwlr, n - 1);
        first_free_is_free(zwlr, claimed(ext, zwlr, n - 1), ext[n - 1], 0);
    }
}

proof fn untaken(ext: Seq<Names>, zwlr: Seq<Names>, i: int, k: int, n: int)
    requires
        0 <= n <= i < ext.len(),
        0 <= k < zwlr.len(),
        ext[i].0.len() == 0,
        zwlr[k].1 == ext[i].1,
        !claimed(ext, zwlr, ext.len() as int)[k],
        forall|j: int| 0 <= j < ext.len() && j != i ==> (#[trigger] ext[j]).1 != ext[i].1,
    ensures
        !adopting(ext, zwlr, n).0[k],
    decreases n,
{
    if n > 0 {
        untaken(ext, zwlr, i, k, n - 1);
        adopting_is_sound(ext, zwlr, n - 1);
        first_free_is_free(zwlr, adopting(ext, zwlr, n - 1).0, ext[n - 1], 0);
    }
}

/// A window has the focus where its states hold the one that is numbered two, at any place.
pub proof fn the_focus_is_told_among_the_states(state: &[u8], little: bool, big: bool)
    requires
        call_ensures(has_activated_in, (state, ByteOrder::Little), little),
        call_ensures(has_activated_in, (state, ByteOrder::Big), big),
    ensures
        little <==> exists|i: int| #[trigger] crate::bytes::stands(state@, i, 2, 0, 0, 0),
        big <==> exists|i: int| #[trigger] crate::bytes::stands(state@, i, 0, 0, 0, 2),
{
    crate::bytes::small_words_are_mostly_nought(state@, 2);
}

/// Completing the names changes names that were empty and nothing else: who a window is, where it
/// stands and what it is titled stay.
pub proof fn only_empty_names_are_completed(
    toplevels: &mut Vec<Toplevel>,
    zwlr: Vec<ZwlrToplevel>,
    i: int,
)
    requires
        call_ensures(complete_app_ids, (toplevels, &zwlr), ()),
        0 <= i < old(toplevels)@.len(),
    ensures
        final(toplevels)@.len() == old(toplevels)@.len(),
        final(toplevels)@[i].handle == old(toplevels)@[i].handle,
        final(toplevels)@[i].identifier@ == old(toplevels)@[i].identifier@,
        final(toplevels)@[i].title@ == old(toplevels)@[i].title@,
        old(toplevels)@[i].app_id@.len() > 0 ==> final(toplevels)@[i].app_id@ == old(
            toplevels,
        )@[i].app_id@,
        final(toplevels)@[i].app_id@ != old(toplevels)@[i].app_id@ ==> exists|k: int|
            0 <= k < zwlr@.len() && (#[trigger] zwlr@[k]).title@ == old(toplevels)@[i].title@
                && zwlr@[k].app_id@ == final(toplevels)@[i].app_id@,
{
    let (ext, z) = (toplevel_names(old(toplevels)@), zwlr_names(zwlr@));
    let n = ext.len() as int;
    adopting_is_sound(ext, z, n);
    adoption_is_one_to_one(ext, z);
    let from = adopted_from(ext, z)[i];
    assert(ext[i] == old(toplevels)@[i].names());
    if let Some(k) = from {
        assert(z[k] == zwlr@[k].names());
    }
}

/// How many windows of the same names went before: one more for each.
pub proof fn each_namesake_counts(
    prior: &[(&str, &str)],
    more: &[(&str, &str)],
    app_id: &str,
    title: &str,
    a: usize,
    b: usize,
    x: (&str, &str),
)
    requires
        call_ensures(dup_index, (prior, app_id, title), a),
        call_ensures(dup_index, (more, app_id, title), b),
        more@ == prior@.push(x),
    ensures
        prior@.len() == 0 ==> a == 0,
        b == a + (if x.0@ == app_id@ && x.1@ == title@ {
            1int
        } else {
            0
        }),
{
    let (p, q) = (pair_names(prior@), pair_names(more@));
    let who = (app_id@, title@);
    let n = prior@.len() as int;
    assert forall|i: int| 0 <= i < n implies p[i] == q[i] by {
        assert(prior@[i] == more@[i]);
    }
    counts_alike(p, q, who, n);
    assert(q[n] == (x.0@, x.1@));
}

proof fn counts_alike(p: Seq<Names>, q: Seq<Names>, who: Names, n: int)
    requires
        0 <= n <= p.len(),
        n <= q.len(),
        forall|i: int| 0 <= i < n ==> p[i] == q[i],
    ensures
        count_named(p, who, n) == count_named(q, who, n),
    decreases n,
{
    if n > 0 {
        counts_alike(p, q, who, n - 1);
    }
}

} // verus!
