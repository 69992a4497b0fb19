//! High-level capture: resolve a *source* (output, window, logical region) to a
//! ready-to-use [`CapturedImage`], compositing across outputs when a region spans
//! several (possibly mixed-scale) monitors.

use crate::error::{failed_with, no_cause, told, CaptureError};
use crate::image::{
    a_drawn_image_shows_where_it_lies, a_part_shows_what_it_covers, cropped, drawn_over,
    offset_in_bounds, CapturedImage,
};
use crate::region::{
    max_i64, max_int, min_i64, min_int, overlap_is_the_common_points, Region,
};
use crate::rounding::{
    cut, cut_of, denominators_are_exact, half_up, half_up_of, nearest, nearest_of,
    products_are_near, whole_quotients_are_exact, DOUBLE,
};
use crate::text::{
    chars_of, contains, contains_str, decimal, decimal_reads_back, eq_ignore_ascii_case,
    find_any_unique, is_digit, join, join_strings, lowercase, parse_i32, parse_i32_spec,
    parse_u32, parse_u32_spec, same, same_ignoring_ascii_case, signed_decimal, split_once,
    split_once_chars, to_lowercase, trim, trim_chars, trimmed_already, views,
};
use crate::wl::{Output, Toplevel};
use vstd::prelude::*;
use vstd::string::*;

verus! {

/// Default time to wait for a one-shot frame from a source, in milliseconds.
pub const DEFAULT_BUDGET: u64 = 2000;

/// What a capture came to.
pub enum Attempt {
    /// It is over, with this result.
    Done(Result<CapturedImage, CaptureError>),
    /// The GPU refused the buffer, for this reason: switch the dma-buf path off and capture
    /// once more, through shared memory.
    ThroughShm(CaptureError),
}

/// What a captured frame comes to, as a value.
pub open spec fn attempted(
    was_gpu: bool,
    gpu_disabled: bool,
    image: Result<CapturedImage, CaptureError>,
) -> Attempt {
    if image is Err && was_gpu && !gpu_disabled {
        Attempt::ThroughShm(image->Err_0)
    } else {
        Attempt::Done(image)
    }
}

/// What becomes of a captured frame that was turned into pixels, or could not be.
///
/// A dma-buf the GPU refuses to import is not a fatal condition: the same capture
/// works through shared memory, which every driver can do. So the dma-buf path is switched
/// off and the capture retried once, and a driver we can't hand buffers to costs a round
/// trip rather than the whole command.
pub fn capture_to_image(
    was_gpu: bool,
    gpu_disabled: bool,
    image: Result<CapturedImage, CaptureError>,
) -> (r: Attempt)
    ensures
        r == attempted(was_gpu, gpu_disabled, image),
{
    match image {
        Err(e) => if was_gpu && !gpu_disabled {
            Attempt::ThroughShm(e)
        } else {
            Attempt::Done(Err(e))
        },
        Ok(img) => Attempt::Done(Ok(img)),
    }
}

/// A capture is retried once at most: with the dma-buf path off, as it is for the second
/// try, whatever comes of the frame is the result.
pub proof fn a_capture_is_retried_once(was_gpu: bool, image: Result<CapturedImage, CaptureError>)
    ensures
        attempted(was_gpu, true, image) == Attempt::Done(image),
{
}

/// Which window to act on, described the way a user thinks of it rather than by the
/// opaque identifier the compositor assigns. At least one field must be set; both
/// together narrow the match.
#[derive(Clone, Copy, Debug)]
pub struct WindowFilter<'a> {
    /// Exact application id, compared case-insensitively (e.g. `firefox`).
    pub app_id: Option<&'a str>,
    /// Substring of the window title, compared case-insensitively.
    pub title: Option<&'a str>,
}

impl Default for WindowFilter<'_> {
    fn default() -> (r: Self)
        ensures
            r.app_id is None,
            r.title is None,
    {
        WindowFilter { app_id: None, title: None }
    }
}

impl<'a> WindowFilter<'a> {
    /// The filter selects a window with this app-id and title.
    pub open spec fn selects(&self, app_id: Seq<char>, title: Seq<char>) -> bool {
        &&& self.app_id matches Some(a) ==> eq_ignore_ascii_case(app_id, a@)
        &&& self.title matches Some(t) ==> contains(lowercase(title), lowercase(t@))
    }

    /// The filter's name in a message.
    pub open spec fn description(&self) -> Seq<char> {
        match (self.app_id, self.title) {
            (Some(a), Some(t)) => "app-id '"@ + a@ + "' with title containing '"@ + t@ + "'"@,
            (Some(a), None) => "app-id '"@ + a@ + "'"@,
            (None, Some(t)) => "title containing '"@ + t@ + "'"@,
            (None, None) => "no window filter"@,
        }
    }

    /// Build a filter from a pair of optional CLI flags, or `None` when neither was given
    /// (the caller then falls back to its own default source).
    pub fn from_flags(app_id: Option<&'a str>, title: Option<&'a str>) -> (r: Option<Self>)
        ensures
            r == if app_id is None && title is None {
                None
            } else {
                Some(WindowFilter { app_id, title })
            },
    {
        if app_id.is_none() && title.is_none() {
            None
        } else {
            Some(WindowFilter { app_id, title })
        }
    }

    /// Whether this filter selects a window with these attributes. An unset field matches
    /// anything, so an empty filter matches every window — callers reject that case before
    /// resolving.
    pub fn matches(&self, app_id: &str, title: &str) -> (r: bool)
        ensures
            r == self.selects(app_id@, title@),
    {
        let app_id_ok = match self.app_id {
            Some(a) => same_ignoring_ascii_case(app_id, a),
            None => true,
        };
        let title_ok = match self.title {
            Some(t) => {
                let whole = to_lowercase(title);
                let part = to_lowercase(t);
                contains_str(whole.as_str(), part.as_str())
            },
            None => true,
        };
        app_id_ok && title_ok
    }

    /// How to name this filter in an error message.
    pub fn describe(&self) -> (r: String)
        ensures
            r@ == self.description(),
    {
        let mut out = String::new();
        match (self.app_id, self.title) {
            (Some(a), Some(t)) => {
                out.append("app-id '");
                out.append(a);
                out.append("' with title containing '");
                out.append(t);
                out.append("'");
            },
            (Some(a), None) => {
                out.append("app-id '");
                out.append(a);
                out.append("'");
            },
            (None, Some(t)) => {
                out.append("title containing '");
                out.append(t);
                out.append("'");
            },
            (None, None) => {
                out.append("no window filter");
            },
        }
        assert(out@ =~= self.description());
        out
    }
}

/// Being selected by a filter.
pub open spec fn selected_by(filter: WindowFilter<'_>) -> spec_fn(Toplevel) -> bool {
    |t: Toplevel| filter.selects(t.app_id@, t.title@)
}

/// A window as the error that lists candidates shows it.
pub open spec fn candidate_line(t: Toplevel) -> Seq<char> {
    "  -w "@ + t.identifier@ + "\t"@ + t.app_id@ + "\t"@ + t.title@
}

/// A window as the error that lists candidates shows it.
fn candidate(t: &Toplevel) -> (r: String)
    ensures
        r@ == candidate_line(*t),
{
    let mut out = String::from_str("  -w ");
    out.append(t.identifier.as_str());
    out.append("\t");
    out.append(t.app_id.as_str());
    out.append("\t");
    out.append(t.title.as_str());
    out
}

/// Resolve a [`WindowFilter`] to exactly one window.
///
/// Ambiguity is an error rather than an arbitrary pick: the toplevel list is ordered by
/// the order the compositor advertised the windows, which is not something a script
/// should silently depend on. The error lists the candidates so the caller can re-run
/// with a tighter filter or the identifier.
pub fn resolve_window<'a>(toplevels: &'a [Toplevel], filter: WindowFilter<'_>) -> (r: Result<
    &'a Toplevel,
    CaptureError,
>)
    ensures
        ({
            let hits = toplevels@.filter(selected_by(filter));
            if hits.len() == 1 {
                r matches Ok(t) && *t == hits[0]
            } else if hits.len() == 0 {
                r matches Err(CaptureError::NoWindowMatches(s)) && s@ == filter.description()
            } else {
                r matches Err(CaptureError::AmbiguousWindow { selector, candidates }) && selector@
                    == filter.description() && views(candidates@) == hits.map_values(
                    |t: Toplevel| candidate_line(t),
                )
            }
        }),
{
    let ghost p = selected_by(filter);
    let mut first: usize = 0;
    let mut lines: Vec<String> = Vec::new();
    for i in 0..toplevels.len()
        invariant
            p == selected_by(filter),
            lines@.len() == toplevels@.take(i as int).filter(p).len(),
            lines@.len() > 0 ==> first < toplevels@.len() && toplevels@[first as int]
                == toplevels@.take(i as int).filter(p)[0],
            forall|j: int|
                0 <= j < lines@.len() ==> (#[trigger] lines@[j])@ == candidate_line(
                    toplevels@.take(i as int).filter(p)[j],
                ),
    {
        assert(toplevels@.take(i + 1).drop_last() =~= toplevels@.take(i as int));
        reveal_with_fuel(Seq::filter, 2);
        if filter.matches(toplevels[i].app_id.as_str(), toplevels[i].title.as_str()) {
            if lines.len() == 0 {
                first = i;
            }
            lines.push(candidate(&toplevels[i]));
        }
    }
    assert(toplevels@.take(toplevels@.len() as int) =~= toplevels@);
    if lines.len() == 1 {
        return Ok(&toplevels[first]);
    }
    if lines.len() == 0 {
        return Err(CaptureError::NoWindowMatches(filter.describe()));
    }
    assert(views(lines@) =~= toplevels@.filter(p).map_values(|t: Toplevel| candidate_line(t)));
    Err(CaptureError::AmbiguousWindow { selector: filter.describe(), candidates: lines })
}

/// Where the first window with this identifier stands, from `k` on.
pub open spec fn window_position(v: Seq<Toplevel>, id: Seq<char>, k: int) -> Option<int>
    decreases v.len() - k,
{
    if k < 0 || k >= v.len() {
        None
    } else if v[k].identifier@ == id {
        Some(k)
    } else {
        window_position(v, id, k + 1)
    }
}

/// The window to capture, by its foreign-toplevel identifier.
pub fn find_window<'a>(toplevels: &'a [Toplevel], id: &str) -> (r: Result<
    &'a Toplevel,
    CaptureError,
>)
    ensures
        match window_position(toplevels@, id@, 0) {
            Some(i) => r matches Ok(t) && *t == toplevels@[i],
            None => r matches Err(CaptureError::WindowNotFound(s)) && s@ == id@,
        },
{
    for i in 0..toplevels.len()
        invariant
            window_position(toplevels@, id@, 0) == window_position(toplevels@, id@, i as int),
    {
        if same(toplevels[i].identifier.as_str(), id) {
            return Ok(&toplevels[i]);
        }
    }
    Err(CaptureError::WindowNotFound(id.to_owned()))
}

/// Where the first output with this name stands, from `k` on.
pub open spec fn output_position(v: Seq<Output>, name: Seq<char>, k: int) -> Option<int>
    decreases v.len() - k,
{
    if k < 0 || k >= v.len() {
        None
    } else if v[k].name@ == name {
        Some(k)
    } else {
        output_position(v, name, k + 1)
    }
}

/// The names of these outputs.
pub open spec fn output_names(v: Seq<Output>) -> Seq<Seq<char>> {
    v.map_values(|o: Output| o.name@)
}

/// The output to capture whole: the named one, or the sole output if unnamed.
pub fn choose_output<'a>(outputs: &'a [Output], name: Option<&str>) -> (r: Result<
    &'a Output,
    CaptureError,
>)
    ensures
        match name {
            Some(n) => match output_position(outputs@, n@, 0) {
                Some(i) => r matches Ok(o) && *o == outputs@[i],
                None => r matches Err(CaptureError::OutputNotFound(s)) && s@ == n@,
            },
            None => if outputs@.len() == 1 {
                r matches Ok(o) && *o == outputs@[0]
            } else if outputs@.len() == 0 {
                r matches Err(CaptureError::NoOutputs)
            } else {
                failed_with(
                    r,
                    "multiple outputs; specify -o NAME among: "@ + join(
                        output_names(outputs@),
                        ", "@,
                    ),
                    no_cause(),
                )
            },
        },
{
    match name {
        Some(n) => {
            for i in 0..outputs.len()
                invariant
                    name == Some(n),
                    output_position(outputs@, n@, 0) == output_position(outputs@, n@, i as int),
            {
                if same(outputs[i].name.as_str(), n) {
                    return Ok(&outputs[i]);
                }
            }
            Err(CaptureError::OutputNotFound(n.to_owned()))
        },
        None => {
            if outputs.len() == 1 {
                return Ok(&outputs[0]);
            }
            if outputs.len() == 0 {
                return Err(CaptureError::NoOutputs);
            }
            let mut names: Vec<String> = Vec::new();
            for i in 0..outputs.len()
                invariant
                    names@.len() == i,
                    forall|j: int|
                        0 <= j < i ==> (#[trigger] names@[j])@ == outputs@[j].name@,
            {
                names.push(outputs[i].name.clone());
            }
            assert(views(names@) =~= output_names(outputs@));
            let mut m = String::from_str("multiple outputs; specify -o NAME among: ");
            let list = join_strings(&names, ", ");
            m.append(list.as_str());
            Err(CaptureError::msg(m.as_str()))
        },
    }
}

/// The nearest integer to `n / d`, halves going away from zero.
pub open spec fn rounded(n: int, d: int) -> int {
    if n >= 0 {
        (2 * n + d) / (2 * d)
    } else {
        -((-2 * n + d) / (2 * d))
    }
}

/// The distance of `n` from zero.
pub open spec fn magnitude(n: int) -> nat {
    if n < 0 {
        (-n) as nat
    } else {
        n as nat
    }
}

/// `n` brought into the range of a 32-bit integer.
pub open spec fn to_i32(n: int) -> i32 {
    max_int(i32::MIN as int, min_int(n, i32::MAX as int)) as i32
}

/// `n` brought into the range of a 32-bit natural number.
pub open spec fn to_u32(n: int) -> u32 {
    max_int(0, min_int(n, u32::MAX as int)) as u32
}

/// `k` times the ratio `c / d` to the nearest integer, halves going away from zero: the ratio
/// and the product are what double precision makes of them.
pub open spec fn times_ratio(k: int, c: int, d: nat) -> int {
    let ratio = nearest(magnitude(c), d, DOUBLE as nat);
    let product = (cut(magnitude(k) * ratio.0, 1, DOUBLE as nat), ratio.1);
    if (k < 0) == (c < 0) {
        half_up(product) as int
    } else {
        -half_up(product)
    }
}

/// `logical` expressed relative to the output rectangle `lr`, scaled by the capture's
/// pixels per point on each axis.
pub open spec fn scaled(lr: Region, capture: (i32, i32), logical: Region) -> Region {
    let w = max_int(lr.w as int, 1) as nat;
    let h = max_int(lr.h as int, 1) as nat;
    Region {
        x: to_i32(times_ratio(logical.x - lr.x, capture.0 as int, w)),
        y: to_i32(times_ratio(logical.y - lr.y, capture.1 as int, h)),
        w: to_u32(times_ratio(logical.w as int, capture.0 as int, w)),
        h: to_u32(times_ratio(logical.h as int, capture.1 as int, h)),
    }
}

fn scale(k: i64, c: i32, d: u32) -> (r: i128)
    requires
        -0x1_0000_0000 <= k <= 0x1_0000_0000,
        d >= 1,
    ensures
        r == times_ratio(k as int, c as int, d as nat),
{
    let size: u128 = if k < 0 {
        (-k) as u128
    } else {
        k as u128
    };
    let above: u128 = if c < 0 {
        (-(c as i64)) as u128
    } else {
        c as u128
    };
    assert(above < 2 * (DOUBLE * d)) by (nonlinear_arith)
        requires
            above <= 0x8000_0000,
            d >= 1,
            DOUBLE == 0x10_0000_0000_0000,
    ;
    let (a, b) = nearest_of(above, d as u128, DOUBLE);
    assert(size * a <= 0x1_0000_0000 * 0x20_0000_0000_0000) by (nonlinear_arith)
        requires
            size <= 0x1_0000_0000,
            a <= 0x20_0000_0000_0000,
    ;
    let m: u128 = cut_of(size * a, 1, DOUBLE);
    let n: u128 = half_up_of(m, b);
    assert(n <= m + 1) by (nonlinear_arith)
        requires
            n == (2 * m + b) / (2 * b),
            b > 0,
            m >= 0,
    ;
    if (k < 0) == (c < 0) {
        n as i128
    } else {
        -(n as i128)
    }
}

/// The arithmetic behind [`logical_to_physical`]: `logical` expressed relative to
/// the output rectangle `lr`, scaled by the capture's pixels-per-point on each
/// axis. Coordinates are rounded to the nearest pixel, and kept within range.
pub fn scale_into_capture(lr: Region, capture: (i32, i32), logical: Region) -> (r: Region)
    ensures
        r == scaled(lr, capture, logical),
{
    let (cw, ch) = capture;
    let w: u32 = if lr.w < 1 {
        1
    } else {
        lr.w
    };
    let h: u32 = if lr.h < 1 {
        1
    } else {
        lr.h
    };
    Region {
        x: clamp_i32(scale(logical.x as i64 - lr.x as i64, cw, w)),
        y: clamp_i32(scale(logical.y as i64 - lr.y as i64, ch, h)),
        w: clamp_u32(scale(logical.w as i64, cw, w)),
        h: clamp_u32(scale(logical.h as i64, ch, h)),
    }
}

/// `n` brought into the range of a 32-bit integer.
pub(crate) fn clamp_i32(n: i128) -> (r: i32)
    ensures
        r == to_i32(n as int),
{
    if n < -0x8000_0000 {
        i32::MIN
    } else if n > 0x7fff_ffff {
        i32::MAX
    } else {
        n as i32
    }
}

/// `n` brought into the range of a 32-bit natural number.
pub(crate) fn clamp_u32(n: i128) -> (r: u32)
    ensures
        r == to_u32(n as int),
{
    if n < 0 {
        0
    } else if n > 0xffff_ffff {
        u32::MAX
    } else {
        n as u32
    }
}

/// Map a logical sub-rectangle of `output` to pixels within its capture (handles
/// fractional scale via the pixel/logical ratio).
///
/// The ratio is taken against [`Output::capture_size`], not the mode: a capture of a
/// rotated output comes back already turned into the layout's orientation, so on a
/// `90`/`270` output the mode's width is the capture's *height*.
pub fn logical_to_physical(output: &Output, logical: Region) -> (r: Region)
    ensures
        r == scaled(output.rect(), output.captured(), logical),
{
    scale_into_capture(output.logical_rect(), output.capture_size(), logical)
}

/// Where a capture has as many pixels per axis as the output has points, a region maps to
/// itself, relative to the output.
pub proof fn unscaled_outputs_map_points_to_pixels(lr: Region, logical: Region)
    requires
        1 <= lr.w <= i32::MAX,
        1 <= lr.h <= i32::MAX,
        i32::MIN <= logical.x - lr.x <= i32::MAX,
        i32::MIN <= logical.y - lr.y <= i32::MAX,
    ensures
        scaled(lr, (lr.w as i32, lr.h as i32), logical) == (Region {
            x: (logical.x - lr.x) as i32,
            y: (logical.y - lr.y) as i32,
            w: logical.w,
            h: logical.h,
        }),
{
    times_one(logical.x - lr.x, lr.w as nat);
    times_one(logical.y - lr.y, lr.h as nat);
    times_one(logical.w as int, lr.w as nat);
    times_one(logical.h as int, lr.h as nat);
}

/// Where there are as many pixels as points, scaling changes nothing.
proof fn times_one(k: int, d: nat)
    requires
        d >= 1,
        -0x1_0000_0000 <= k <= 0x1_0000_0000,
    ensures
        times_ratio(k, d as int, d) == k,
{
    let least = DOUBLE as nat;
    assert(d * 1 == d);
    whole_quotients_are_exact(d, 1, least);
    denominators_are_exact(magnitude(k), d, d, least);
    let (a, b) = nearest(d, d, least);
    let m = magnitude(k);
    assert(1 * b == b);
    assert((2 * (m * b) + b) / (2 * b) == m) by (nonlinear_arith)
        requires
            b > 0,
            m >= 0,
    ;
}

/// `box` is the smallest region with every one of `rects` inside it.
pub open spec fn is_bounding_box(b: Region, rects: Seq<Region>) -> bool {
    &&& forall|i: int|
        0 <= i < rects.len() ==> b.x <= (#[trigger] rects[i]).x && b.y <= rects[i].y
            && rects[i].right() <= b.right() && rects[i].bottom() <= b.bottom()
    &&& exists|i: int| 0 <= i < rects.len() && (#[trigger] rects[i]).x == b.x
    &&& exists|i: int| 0 <= i < rects.len() && (#[trigger] rects[i]).y == b.y
    &&& exists|i: int| 0 <= i < rects.len() && (#[trigger] rects[i]).right() == b.right()
    &&& exists|i: int| 0 <= i < rects.len() && (#[trigger] rects[i]).bottom() == b.bottom()
}

/// Where these outputs lie.
pub open spec fn output_rects(v: Seq<Output>) -> Seq<Region> {
    v.map_values(|o: Output| o.rect())
}

/// The bounding box of every output, in logical coordinates (the whole desktop).
pub fn whole_layout(outputs: &[Output]) -> (r: Result<Region, CaptureError>)
    requires
        forall|i: int|
            0 <= i < outputs@.len() ==> (#[trigger] outputs@[i]).rect().right() <= i32::MAX
                && outputs@[i].rect().bottom() <= i32::MAX,
    ensures
        if outputs@.len() == 0 {
            r matches Err(CaptureError::NoOutputs)
        } else {
            r matches Ok(b) && is_bounding_box(b, output_rects(outputs@))
        },
{
    if outputs.len() == 0 {
        return Err(CaptureError::NoOutputs);
    }
    let ghost rects = output_rects(outputs@);
    let first = outputs[0].logical_rect();
    assert(rects[0] == first);
    let mut x0: i64 = first.x as i64;
    let mut y0: i64 = first.y as i64;
    let mut x1: i64 = first.x as i64 + first.w as i64;
    let mut y1: i64 = first.y as i64 + first.h as i64;
    for i in 1..outputs.len()
        invariant
            1 <= outputs@.len(),
            rects == output_rects(outputs@),
            forall|j: int|
                0 <= j < outputs@.len() ==> (#[trigger] outputs@[j]).rect().right() <= i32::MAX
                    && outputs@[j].rect().bottom() <= i32::MAX,
            i32::MIN <= x0 <= i32::MAX,
            i32::MIN <= y0 <= i32::MAX,
            x0 <= x1 <= i32::MAX,
            y0 <= y1 <= i32::MAX,
            forall|j: int|
                0 <= j < i ==> x0 <= (#[trigger] rects[j]).x && y0 <= rects[j].y
                    && rects[j].right() <= x1 && rects[j].bottom() <= y1,
            exists|j: int| 0 <= j < i && (#[trigger] rects[j]).x == x0,
            exists|j: int| 0 <= j < i && (#[trigger] rects[j]).y == y0,
            exists|j: int| 0 <= j < i && (#[trigger] rects[j]).right() == x1,
            exists|j: int| 0 <= j < i && (#[trigger] rects[j]).bottom() == y1,
    {
        let ghost o = outputs@[i as int];
        let q = outputs[i].logical_rect();
        assert(rects[i as int] == q);
        x0 = min_i64(x0, q.x as i64);
        y0 = min_i64(y0, q.y as i64);
        x1 = max_i64(x1, q.x as i64 + q.w as i64);
        y1 = max_i64(y1, q.y as i64 + q.h as i64);
    }
    Ok(Region { x: x0 as i32, y: y0 as i32, w: (x1 - x0) as u32, h: (y1 - y0) as u32 })
}

/// The longest side of an image that is resampled.
pub const MAX_RESAMPLED: u32 = 0x40_0000;

/// What `image::imageops::resize` makes of an RGBA8 image with the Triangle filter.
pub uninterp spec fn triangle_resized(
    rgba: Seq<u8>,
    w: u32,
    h: u32,
    nw: u32,
    nh: u32,
) -> Seq<u8>;

/// An image of `w` by `h` pixels can be resampled to `nw` by `nh`. The result fits in memory,
/// and so does the intermediate image of `w` by `nh` pixels with sixteen bytes each. No side
/// is so long that neighbouring pixels' positions, which the filter computes in single
/// precision, could fall together.
pub open spec fn can_resize(w: u32, h: u32, nw: u32, nh: u32) -> bool {
    &&& 0 < nw <= MAX_RESAMPLED
    &&& 0 < nh <= MAX_RESAMPLED
    &&& w <= MAX_RESAMPLED
    &&& h <= MAX_RESAMPLED
    &&& nw * nh * 4 <= isize::MAX
    &&& w * nh * 16 <= isize::MAX
}

/// `image::imageops::resize` with the Triangle filter, on the RGBA8 image of `w` by `h`
/// pixels that `image::RgbaImage::from_raw` makes of `rgba`. The result is an image of `nw`
/// by `nh` pixels; which ones is the filter's, and depends on nothing but the arguments.
///
/// See [`can_resize`] for the sizes it is asked for.
#[verifier::external_body]
fn image_resize(rgba: Vec<u8>, w: u32, h: u32, nw: u32, nh: u32) -> (r: Vec<u8>)
    requires
        rgba@.len() >= w * h * 4,
        can_resize(w, h, nw, nh),
    ensures
        r@ == triangle_resized(rgba@, w, h, nw, nh),
        r@.len() == nw * nh * 4,
{
    let buf = image::RgbaImage::from_raw(w, h, rgba).unwrap();
    image::imageops::resize(&buf, nw, nh, image::imageops::FilterType::Triangle).into_raw()
}

/// An image resized: its width, height and bytes.
pub open spec fn resized(rgba: Seq<u8>, w: u32, h: u32, nw: u32, nh: u32) -> (u32, u32, Seq<u8>) {
    if (w == nw && h == nh) || nw == 0 || nh == 0 {
        (w, h, rgba)
    } else if rgba.len() < w * h * 4 {
        (0, 0, Seq::empty())
    } else {
        (nw, nh, triangle_resized(rgba, w, h, nw, nh))
    }
}

/// Whether resizing an image of that many bytes resamples it.
pub open spec fn resamples(len: nat, w: u32, h: u32, nw: u32, nh: u32) -> bool {
    !(w == nw && h == nh) && nw > 0 && nh > 0 && len >= w * h * 4
}

/// Resize a capture to `nw × nh` (Triangle filter); identity if already that size.
pub fn resize(img: CapturedImage, nw: u32, nh: u32) -> (r: CapturedImage)
    requires
        resamples(img.rgba@.len(), img.width, img.height, nw, nh) ==> can_resize(
            img.width,
            img.height,
            nw,
            nh,
        ),
    ensures
        (r.width, r.height, r.rgba@) == resized(img.rgba@, img.width, img.height, nw, nh),
        img.wf() ==> r.wf(),
        img.wf() && nw > 0 && nh > 0 ==> r.width == nw && r.height == nh,
{
    if (img.width == nw && img.height == nh) || nw == 0 || nh == 0 {
        return img;
    }
    assert(img.width * img.height * 4 <= 0x4_0000_0000 * 0xffff_ffff) by (nonlinear_arith)
        requires
            img.width <= 0xffff_ffff,
            img.height <= 0xffff_ffff,
    ;
    let n: u128 = img.width as u128 * img.height as u128 * 4;
    if (img.rgba.len() as u128) < n {
        return CapturedImage { width: 0, height: 0, rgba: Vec::new() };
    }
    let small = image_resize(img.rgba, img.width, img.height, nw, nh);
    CapturedImage { width: nw, height: nh, rgba: small }
}

/// A captured output paired with its geometry, for compositing a region.
pub struct OutputCapture {
    /// The output, including its placement in the global logical space.
    pub output: Output,
    /// The captured pixels of that output.
    pub image: CapturedImage,
}

impl OutputCapture {
    /// The part of `region` this output shows, in logical coordinates.
    pub open spec fn part(&self, region: Region) -> Option<Region> {
        region.overlap(&self.output.rect())
    }

    /// Those pixels of the capture that show `logical`, as far as it holds them.
    pub open spec fn native(&self, logical: Region) -> (u32, u32, Seq<u8>) {
        match scaled(self.output.rect(), self.output.captured(), logical).overlap(
            &self.image.bounds(),
        ) {
            Some(o) => (o.w, o.h, cropped(self.image.rgba@, self.image.width as int, o)),
            None => (0, 0, Seq::empty()),
        }
    }

    /// Those pixels, brought to one per point.
    pub open spec fn at_logical_size(&self, logical: Region) -> (u32, u32, Seq<u8>) {
        let (w, h, rgba) = self.native(logical);
        resized(rgba, w, h, logical.w, logical.h)
    }

    /// Those pixels can be brought to one per point.
    pub open spec fn fits(&self, logical: Region) -> bool {
        let (w, h, rgba) = self.native(logical);
        resamples(rgba.len(), w, h, logical.w, logical.h) ==> can_resize(
            w,
            h,
            logical.w,
            logical.h,
        )
    }

    /// Crop the capture to what shows `logical`.
    fn crop_native(&self, logical: Region) -> (r: CapturedImage)
        requires
            self.image.wf(),
        ensures
            r.wf(),
            r.width <= self.image.width,
            (r.width, r.height, r.rgba@) == self.native(logical),
    {
        let r = self.image.crop(logical_to_physical(&self.output, logical));
        assert(r.width == 0 ==> r.rgba@ =~= Seq::<u8>::empty()) by (nonlinear_arith)
            requires
                r.rgba@.len() == r.width * r.height * 4,
        ;
        r
    }
}

/// Showing part of `region`.
pub open spec fn shows(region: Region) -> spec_fn(OutputCapture) -> bool {
    |c: OutputCapture| c.part(region) is Some
}

/// The canvas of `region` once the first `n` captures are drawn on it, each at one pixel per
/// point. Nothing covers it at first.
pub open spec fn canvas(caps: Seq<OutputCapture>, region: Region, n: int) -> Seq<u8>
    decreases n,
{
    if n <= 0 {
        Seq::new((region.w * region.h * 4) as nat, |k: int| 0u8)
    } else {
        let before = canvas(caps, region, n - 1);
        match caps[n - 1].part(region) {
            Some(p) => {
                let (w, h, rgba) = caps[n - 1].at_logical_size(p);
                drawn_over(
                    before,
                    region.w as int,
                    rgba,
                    w as int,
                    h as int,
                    p.x - region.x,
                    p.y - region.y,
                )
            },
            None => before,
        }
    }
}

/// `region` can be composed at one pixel per point: the canvas fits in memory and in the
/// coordinate space, and each output's part can be brought to its size.
pub open spec fn can_compose(caps: Seq<OutputCapture>, region: Region) -> bool {
    &&& region.w <= i32::MAX
    &&& region.h <= i32::MAX
    &&& region.w * region.h * 4 <= isize::MAX
    &&& forall|i: int|
        0 <= i < caps.len() ==> ((#[trigger] caps[i]).part(region) matches Some(p) ==> caps[i].fits(
            p,
        ))
}

/// Composite `region` from already-captured outputs. A region within a single
/// output is returned at that output's native pixel resolution; a region spanning
/// several (possibly mixed-scale) outputs is composited at logical resolution.
pub fn composite(caps: &[OutputCapture], region: Region) -> (r: Result<CapturedImage, CaptureError>)
    requires
        forall|i: int| 0 <= i < caps@.len() ==> (#[trigger] caps@[i]).image.wf(),
        caps@.filter(shows(region)).len() >= 2 ==> can_compose(caps@, region),
    ensures
        ({
            let covering = caps@.filter(shows(region));
            if region.w == 0 || region.h == 0 {
                r matches Err(CaptureError::EmptyRegion)
            } else if covering.len() == 0 {
                r matches Err(CaptureError::RegionOffscreen)
            } else if covering.len() == 1 {
                r matches Ok(img) && img.wf() && (img.width, img.height, img.rgba@)
                    == covering[0].native(covering[0].part(region)->0)
            } else {
                r matches Ok(img) && img.wf() && img.width == region.w && img.height == region.h
                    && img.rgba@ == canvas(caps@, region, caps@.len() as int)
            }
        }),
{
    if region.is_empty() {
        return Err(CaptureError::EmptyRegion);
    }
    let ghost p = shows(region);
    let mut count: usize = 0;
    let mut first: usize = 0;
    for i in 0..caps.len()
        invariant
            p == shows(region),
            count <= i,
            count == caps@.take(i as int).filter(p).len(),
            count > 0 ==> first < caps@.len() && p(caps@[first as int]) && caps@[first as int]
                == caps@.take(i as int).filter(p)[0],
    {
        assert(caps@.take(i + 1).drop_last() =~= caps@.take(i as int));
        reveal_with_fuel(Seq::filter, 2);
        if region.intersect(&caps[i].output.logical_rect()).is_some() {
            if count == 0 {
                first = i;
            }
            count = count + 1;
        }
    }
    assert(caps@.take(caps@.len() as int) =~= caps@);
    if count == 0 {
        return Err(CaptureError::RegionOffscreen);
    }
    if count == 1 {
        // Fast path: a single output → crop its native capture, no resampling.
        let c = &caps[first];
        return match region.intersect(&c.output.logical_rect()) {
            Some(inter) => Ok(c.crop_native(inter)),
            None => Err(CaptureError::RegionOffscreen),
        };
    }
    // Multi-output: composite at logical resolution.
    let (dw, dh): (u32, u32) = (region.w, region.h);
    assert(0 <= dw * dh) by (nonlinear_arith);
    let n: usize = dw as usize * dh as usize * 4;
    let mut dst: Vec<u8> = vec![0u8; n];
    assert(dst@ =~= canvas(caps@, region, 0));
    for i in 0..caps.len()
        invariant
            forall|j: int| 0 <= j < caps@.len() ==> (#[trigger] caps@[j]).image.wf(),
            dw == region.w,
            dh == region.h,
            0 < dw,
            0 < dh,
            can_compose(caps@, region),
            dst@.len() == dw * dh * 4,
            dst@ == canvas(caps@, region, i as int),
    {
        let c = &caps[i];
        assert(*c == caps@[i as int]);
        if let Some(inter) = region.intersect(&c.output.logical_rect()) {
            let part = c.crop_native(inter);
            assert(caps@[i as int].fits(inter));
            let logical = resize(part, inter.w, inter.h);
            let ghost before = dst@;
            logical.blit_into(
                dst.as_mut_slice(),
                dw,
                dh,
                (inter.x as i64 - region.x as i64) as i32,
                (inter.y as i64 - region.y as i64) as i32,
            );
        }
    }
    Ok(CapturedImage { width: dw, height: dh, rgba: dst })
}

/// Outputs showing part of `region`.
pub open spec fn output_shows(region: Region) -> spec_fn(Output) -> bool {
    |o: Output| region.overlap(&o.rect()) is Some
}

/// The outputs to capture for a logical region: those it covers, in order.
pub fn outputs_in_region(outputs: &[Output], region: Region) -> (r: Result<
    Vec<Output>,
    CaptureError,
>)
    ensures
        ({
            let covered = outputs@.filter(output_shows(region));
            if region.w == 0 || region.h == 0 {
                r matches Err(CaptureError::EmptyRegion)
            } else if covered.len() == 0 {
                r matches Err(CaptureError::RegionOffscreen)
            } else {
                r matches Ok(v) && v@ == covered
            }
        }),
{
    if region.is_empty() {
        return Err(CaptureError::EmptyRegion);
    }
    let mut kept: Vec<Output> = Vec::new();
    for i in 0..outputs.len()
        invariant
            kept@ == outputs@.take(i as int).filter(output_shows(region)),
    {
        assert(outputs@.take(i + 1).drop_last() =~= outputs@.take(i as int));
        reveal_with_fuel(Seq::filter, 2);
        if region.intersect(&outputs[i].logical_rect()).is_some() {
            kept.push(outputs[i].clone());
        }
    }
    assert(outputs@.take(outputs@.len() as int) =~= outputs@);
    if kept.len() == 0 {
        return Err(CaptureError::RegionOffscreen);
    }
    Ok(kept)
}

/// The error type of the `image` crate.
#[verifier::external_type_specification]
#[verifier::external_body]
pub struct ExImageError(image::ImageError);

/// The PNG file `image` makes of an RGBA8 image, where it makes one.
pub uninterp spec fn png_file(rgba: Seq<u8>, w: u32, h: u32) -> Option<Seq<u8>>;

/// `image::DynamicImage::write_to` in PNG format, of the RGBA8 image of `w` by `h` pixels
/// that `image::RgbaImage::from_raw` makes of `rgba`, into memory. The bytes, and whether
/// there are any, depend on nothing but the arguments.
#[verifier::external_body]
fn image_to_png(rgba: Vec<u8>, w: u32, h: u32) -> (r: Result<Vec<u8>, image::ImageError>)
    requires
        rgba@.len() == w * h * 4,
    ensures
        match r {
            Ok(v) => png_file(rgba@, w, h) == Some(v@),
            Err(_) => png_file(rgba@, w, h) is None,
        },
{
    let buf = image::RgbaImage::from_raw(w, h, rgba).unwrap();
    let mut out = std::io::Cursor::new(Vec::new());
    image::DynamicImage::ImageRgba8(buf).write_to(&mut out, image::ImageFormat::Png)?;
    Ok(out.into_inner())
}

/// A text is what some error of the `image` crate says of itself.
pub open spec fn says_image_error(text: String) -> bool {
    exists|e: image::ImageError| to_string_from_display_ensures::<image::ImageError>(&e, text)
}

/// Encode a captured image as PNG bytes (for tools that save a still).
pub fn encode_png(img: &CapturedImage) -> (r: Result<Vec<u8>, CaptureError>)
    requires
        img.rgba@.len() <= img.width * img.height * 4,
    ensures
        if img.rgba@.len() < img.width * img.height * 4 {
            failed_with(
                r,
                "image dimensions don't match the buffer"@,
                no_cause(),
            )
        } else {
            match png_file(img.rgba@, img.width, img.height) {
                Some(bytes) => r matches Ok(v) && v@ == bytes,
                None => failed_with(
                    r,
                    "PNG encode"@,
                    |c: Vec<String>| c@.len() > 0 && says_image_error(c@[0]),
                ),
            }
        },
{
    assert(img.width * img.height * 4 <= 0x4_0000_0000 * 0xffff_ffff) by (nonlinear_arith)
        requires
            img.width <= 0xffff_ffff,
            img.height <= 0xffff_ffff,
    ;
    let n: u128 = img.width as u128 * img.height as u128 * 4;
    if (img.rgba.len() as u128) < n {
        return Err(CaptureError::msg("image dimensions don't match the buffer"));
    }
    let bytes = img.rgba.clone();
    assert(bytes@ =~= img.rgba@);
    match image_to_png(bytes, img.width, img.height) {
        Ok(v) => Ok(v),
        Err(e) => {
            let source = told(e);
            assert(to_string_from_display_ensures::<image::ImageError>(&e, source@[0]));
            Err(CaptureError::Backend { context: String::from_str("PNG encode"), source })
        },
    }
}

/// The region a slurp-style geometry spells, if it spells one: `"X,Y WxH"`, with white
/// space tolerated around each number.
pub open spec fn geometry(s: Seq<char>) -> Option<Region> {
    match split_once(trim(s), seq![' ']) {
        None => None,
        Some((pos, size)) => match (
            split_once(pos, seq![',']),
            split_once(size, seq!['x', 'X', '\u{d7}']),
        ) {
            (Some((x, y)), Some((w, h))) => match (
                parse_i32_spec(trim(x)),
                parse_i32_spec(trim(y)),
                parse_u32_spec(trim(w)),
                parse_u32_spec(trim(h)),
            ) {
                (Some(x), Some(y), Some(w), Some(h)) => Some(Region { x, y, w, h }),
                _ => None,
            },
            _ => None,
        },
    }
}

/// The characters of a printed number: none is white space, a comma or a cross.
proof fn number_characters(n: int)
    ensures
        signed_decimal(n).len() > 0,
        forall|i: int|
            0 <= i < signed_decimal(n).len() ==> (is_digit(#[trigger] signed_decimal(n)[i])
                || signed_decimal(n)[i] == '-'),
        i32::MIN <= n <= i32::MAX ==> parse_i32_spec(trim(signed_decimal(n))) == Some(n as i32),
        0 <= n <= u32::MAX ==> parse_u32_spec(trim(signed_decimal(n))) == Some(n as u32),
{
    let s = signed_decimal(n);
    if n < 0 {
        decimal_reads_back((-n) as nat);
        assert(s.skip(1) =~= decimal((-n) as nat));
        assert forall|i: int| 0 <= i < s.len() implies (is_digit(#[trigger] s[i]) || s[i] == '-') by {
            if i > 0 {
                assert(s[i] == decimal((-n) as nat)[i - 1]);
            }
        }
    } else {
        decimal_reads_back(n as nat);
    }
    trimmed_already(s);
}

/// Text with a separator in it splits there, if none stands further left.
pub(crate) proof fn splits_at(left: Seq<char>, c: char, right: Seq<char>, separators: Seq<char>)
    requires
        separators.contains(c),
        forall|i: int| 0 <= i < left.len() ==> !separators.contains(#[trigger] left[i]),
    ensures
        split_once(left + seq![c] + right, separators) == Some((left, right)),
{
    let s = left + seq![c] + right;
    let n = left.len() as int;
    assert(s[n] == c);
    assert forall|i: int| 0 <= i < n implies !separators.contains(#[trigger] s[i]) by {
        assert(s[i] == left[i]);
    }
    find_any_unique(s, separators, n);
    assert(s.take(n) =~= left);
    assert(s.skip(n + 1) =~= right);
}

/// A region written as slurp writes one reads back as that region.
pub proof fn geometry_reads_back(r: Region)
    ensures
        geometry(
            signed_decimal(r.x as int) + ","@ + signed_decimal(r.y as int) + " "@ + decimal(
                r.w as nat,
            ) + "x"@ + decimal(r.h as nat),
        ) == Some(r),
{
    reveal_strlit(",");
    reveal_strlit(" ");
    reveal_strlit("x");
    let (x, y) = (signed_decimal(r.x as int), signed_decimal(r.y as int));
    let (w, h) = (signed_decimal(r.w as int), signed_decimal(r.h as int));
    number_characters(r.x as int);
    number_characters(r.y as int);
    number_characters(r.w as int);
    number_characters(r.h as int);
    let pos = x + seq![','] + y;
    let size = w + seq!['x'] + h;
    let s = pos + seq![' '] + size;
    assert(x + ","@ + y + " "@ + w + "x"@ + h =~= s);
    assert(trim(s) == s) by {
        assert(s[0] == x[0] && s.last() == h.last());
        trimmed_already(s);
    }
    assert(split_once(s, seq![' ']) == Some((pos, size))) by {
        assert(seq![' '][0] == ' ');
        assert forall|i: int| 0 <= i < pos.len() implies !seq![' '].contains(
            #[trigger] pos[i],
        ) by {
            if i < x.len() {
                assert(pos[i] == x[i]);
            } else if i > x.len() {
                assert(pos[i] == y[i - x.len() - 1]);
            }
        }
        splits_at(pos, ' ', size, seq![' ']);
    }
    assert(split_once(pos, seq![',']) == Some((x, y))) by {
        assert(seq![','][0] == ',');
        splits_at(x, ',', y, seq![',']);
    }
    assert(split_once(size, seq!['x', 'X', '\u{d7}']) == Some((w, h))) by {
        assert(seq!['x', 'X', '\u{d7}'][0] == 'x');
        splits_at(w, 'x', h, seq!['x', 'X', '\u{d7}']);
    }
}

/// The region a slurp-style geometry spells.
fn region_of(s: &str) -> (r: Option<Region>)
    ensures
        r == geometry(s@),
{
    let all = chars_of(s);
    let trimmed = trim_chars(all.as_slice());
    let blank: [char; 1] = [' '];
    let comma: [char; 1] = [','];
    let times: [char; 3] = ['x', 'X', '\u{d7}'];
    assert(blank@ =~= seq![' ']);
    assert(comma@ =~= seq![',']);
    assert(times@ =~= seq!['x', 'X', '\u{d7}']);
    let (pos, size) = match split_once_chars(trimmed.as_slice(), &blank) {
        Some(p) => p,
        None => {
            return None;
        },
    };
    let (x, y) = match split_once_chars(pos.as_slice(), &comma) {
        Some(p) => p,
        None => {
            return None;
        },
    };
    let (w, h) = match split_once_chars(size.as_slice(), &times) {
        Some(p) => p,
        None => {
            return None;
        },
    };
    let x = trim_chars(x.as_slice());
    let y = trim_chars(y.as_slice());
    let w = trim_chars(w.as_slice());
    let h = trim_chars(h.as_slice());
    match (
        parse_i32(x.as_slice()),
        parse_i32(y.as_slice()),
        parse_u32(w.as_slice()),
        parse_u32(h.as_slice()),
    ) {
        (Some(x), Some(y), Some(w), Some(h)) => Some(Region { x, y, w, h }),
        _ => None,
    }
}

/// Parse a slurp-style geometry: `"X,Y WxH"` (X/Y may be negative).
pub fn parse_geometry(s: &str) -> (r: Result<Region, CaptureError>)
    ensures
        match geometry(s@) {
            Some(g) => r == Ok::<Region, CaptureError>(g),
            None => r matches Err(CaptureError::InvalidGeometry(t)) && t@ == s@,
        },
{
    match region_of(s) {
        Some(g) => Ok(g),
        None => Err(CaptureError::InvalidGeometry(s.to_owned())),
    }
}

/// A capture with one pixel for each point of its output.
pub open spec fn unscaled(c: OutputCapture) -> bool {
    let r = c.output.rect();
    &&& c.image.wf()
    &&& 1 <= r.w <= i32::MAX && 1 <= r.h <= i32::MAX
    &&& c.image.width == r.w && c.image.height == r.h
    &&& c.output.captured() == (r.w as i32, r.h as i32)
}

/// An unscaled capture's part shows what the capture does there.
proof fn native_part_of_unscaled(c: OutputCapture, region: Region)
    requires
        unscaled(c),
        c.part(region) is Some,
    ensures
        ({
            let p = c.part(region)->0;
            let o = Region {
                x: (p.x - c.output.logical_x) as i32,
                y: (p.y - c.output.logical_y) as i32,
                w: p.w,
                h: p.h,
            };
            &&& o.x == p.x - c.output.logical_x && o.y == p.y - c.output.logical_y
            &&& c.native(p) == (p.w, p.h, cropped(c.image.rgba@, c.image.width as int, o))
            &&& c.at_logical_size(p) == c.native(p)
        }),
{
    let p = c.part(region)->0;
    let lr = c.output.rect();
    unscaled_outputs_map_points_to_pixels(lr, p);
}

/// A part brought to one pixel per point has the part's size.
proof fn logical_size_is_the_parts(c: OutputCapture, p: Region)
    requires
        p.w > 0,
        p.h > 0,
    ensures
        c.at_logical_size(p).0 == p.w,
        c.at_logical_size(p).1 == p.h,
{
    let (w, h, rgba) = c.native(p);
    assert(rgba.len() >= w * h * 4) by {
        if w == 0 || h == 0 {
            assert(w * h * 4 == 0) by (nonlinear_arith)
                requires
                    w == 0 || h == 0,
            ;
        }
        assert(w * h * 4 >= 0) by (nonlinear_arith)
            requires
                w >= 0,
                h >= 0,
        ;
    }
}

/// The canvas holds what its size promises.
proof fn canvas_len(caps: Seq<OutputCapture>, region: Region, n: int)
    ensures
        canvas(caps, region, n).len() == region.w * region.h * 4,
    decreases n,
{
    if n > 0 {
        canvas_len(caps, region, n - 1);
    } else {
        assert(region.w * region.h * 4 >= 0) by (nonlinear_arith)
            requires
                region.w >= 0,
                region.h >= 0,
        ;
    }
}

/// Each point of a composed region shows the last of the outputs that hold it, as far from the
/// corner of that output's part as the point is, and nothing where none does.
pub proof fn each_point_shows_the_last_output_that_holds_it(
    caps: Seq<OutputCapture>,
    region: Region,
    n: int,
    last: int,
    i: int,
    j: int,
    k: int,
)
    requires
        0 <= n <= caps.len(),
        -1 <= last < n,
        0 <= i < region.w,
        0 <= j < region.h,
        0 <= k < 4,
        last >= 0 ==> caps[last].output.rect().holds(region.x + i, region.y + j),
        forall|m: int|
            last < m < n ==> !(#[trigger] caps[m]).output.rect().holds(region.x + i, region.y + j),
    ensures
        0 <= 4 * (j * region.w + i) + k < canvas(caps, region, n).len(),
        last == -1 ==> canvas(caps, region, n)[4 * (j * region.w + i) + k] == 0,
        last >= 0 ==> {
            let (px, py) = (region.x + i, region.y + j);
            &&& caps[last].part(region) is Some
            &&& caps[last].part(region)->0.holds(px, py)
            &&& ({
                let p = caps[last].part(region)->0;
                canvas(caps, region, n)[4 * (j * region.w + i) + k] == caps[last].at_logical_size(
                    p,
                ).2[4 * ((py - p.y) * p.w + (px - p.x)) + k]
            })
        },
    decreases n,
{
    let (px, py) = (region.x + i, region.y + j);
    canvas_len(caps, region, n);
    offset_in_bounds(region.w as int, region.h as int, i, j);
    assert(region.holds(px, py));
    if n > 0 {
        let c = caps[n - 1];
        canvas_len(caps, region, n - 1);
        overlap_is_the_common_points(region, c.output.rect());
        if let Some(p) = c.part(region) {
            logical_size_is_the_parts(c, p);
            a_drawn_image_shows_where_it_lies(
                canvas(caps, region, n - 1),
                region.w as int,
                region.h as int,
                c.at_logical_size(p).2,
                p.w as int,
                p.h as int,
                p.x - region.x,
                p.y - region.y,
                i,
                j,
                k,
            );
            assert(p.holds(px, py) == c.output.rect().holds(px, py));
        }
        if last < n - 1 {
            each_point_shows_the_last_output_that_holds_it(caps, region, n - 1, last, i, j, k);
        }
    }
}

/// Two outputs that show part of a region are two of those that do.
proof fn two_that_show(caps: Seq<OutputCapture>, region: Region, a: int, b: int)
    requires
        0 <= a < b < caps.len(),
        shows(region)(caps[a]),
        shows(region)(caps[b]),
    ensures
        caps.filter(shows(region)).len() >= 2,
    decreases caps.len(),
{
    reveal(Seq::filter);
    let rest = caps.drop_last();
    if b < rest.len() {
        two_that_show(rest, region, a, b);
    } else {
        one_that_shows(rest, region, a);
    }
}

proof fn one_that_shows(caps: Seq<OutputCapture>, region: Region, a: int)
    requires
        0 <= a < caps.len(),
        shows(region)(caps[a]),
    ensures
        caps.filter(shows(region)).len() >= 1,
    decreases caps.len(),
{
    reveal(Seq::filter);
    let rest = caps.drop_last();
    if a < rest.len() {
        one_that_shows(rest, region, a);
    }
}

/// A region over several outputs of one pixel per point is put together as they lie: the pixel
/// for a point is that of the last listed output that holds the point, as far from the left and
/// from the top edge of that output as the point is, and a point that no output holds is
/// transparent.
pub proof fn a_region_is_put_together_as_the_outputs_lie(
    caps: &[OutputCapture],
    region: Region,
    r: Result<CapturedImage, CaptureError>,
    a: int,
    b: int,
    i: int,
    j: int,
    k: int,
)
    requires
        call_ensures(composite, (caps, region), r),
        forall|m: int| 0 <= m < caps@.len() ==> unscaled(#[trigger] caps@[m]),
        0 <= a < b < caps@.len(),
        caps@[a].part(region) is Some,
        caps@[b].part(region) is Some,
        0 <= i < region.w,
        0 <= j < region.h,
        0 <= k < 4,
    ensures
        r matches Ok(img) && {
            &&& img.width == region.w && img.height == region.h
            &&& img.rgba@.len() == 4 * (region.w * region.h)
            &&& forall|last: int|
                #![trigger caps@[last]]
                0 <= last < caps@.len() && caps@[last].output.rect().holds(
                    region.x + i,
                    region.y + j,
                ) && (forall|m: int|
                    last < m < caps@.len() ==> !(#[trigger] caps@[m]).output.rect().holds(
                        region.x + i,
                        region.y + j,
                    )) ==> img.rgba@[4 * (j * region.w + i) + k] == caps@[last].image.rgba@[4 * ((
                region.y + j - caps@[last].output.logical_y) * caps@[last].image.width + (region.x
                    + i - caps@[last].output.logical_x)) + k]
            &&& (forall|m: int|
                0 <= m < caps@.len() ==> !(#[trigger] caps@[m]).output.rect().holds(
                    region.x + i,
                    region.y + j,
                )) ==> img.rgba@[4 * (j * region.w + i) + k] == 0
        },
{
    two_that_show(caps@, region, a, b);
    let n = caps@.len() as int;
    let (px, py) = (region.x + i, region.y + j);
    assert forall|last: int|
        #![trigger caps@[last]]
        0 <= last < n && caps@[last].output.rect().holds(px, py) && (forall|m: int|
            last < m < n ==> !(#[trigger] caps@[m]).output.rect().holds(px, py)) implies canvas(
        caps@,
        region,
        n,
    )[4 * (j * region.w + i) + k] == caps@[last].image.rgba@[4 * ((py
        - caps@[last].output.logical_y) * caps@[last].image.width + (px
        - caps@[last].output.logical_x)) + k] by {
        each_point_shows_the_last_output_that_holds_it(caps@, region, n, last, i, j, k);
        let c = caps@[last];
        let p = c.part(region)->0;
        native_part_of_unscaled(c, region);
        let o = Region {
            x: (p.x - c.output.logical_x) as i32,
            y: (p.y - c.output.logical_y) as i32,
            w: p.w,
            h: p.h,
        };
        a_part_shows_what_it_covers(
            c.image.rgba@,
            c.image.width as int,
            o,
            px - p.x,
            py - p.y,
            k,
        );
    }
    if forall|m: int| 0 <= m < n ==> !(#[trigger] caps@[m]).output.rect().holds(px, py) {
        each_point_shows_the_last_output_that_holds_it(caps@, region, n, -1, i, j, k);
    }
    canvas_len(caps@, region, n);
}

/// A region within one output is that output's own pixels: of an unscaled one, the pixels of
/// the points they share, as far from its edges as the points are.
pub proof fn a_region_on_one_output_is_its_pixels(
    caps: &[OutputCapture],
    region: Region,
    r: Result<CapturedImage, CaptureError>,
    a: int,
    x: int,
    y: int,
    k: int,
)
    requires
        call_ensures(composite, (caps, region), r),
        0 <= a < caps@.len(),
        unscaled(caps@[a]),
        caps@[a].part(region) is Some,
        forall|m: int| 0 <= m < caps@.len() && m != a ==> (#[trigger] caps@[m]).part(region) is None,
        0 <= k < 4,
        region.holds(x, y),
        caps@[a].output.rect().holds(x, y),
    ensures
        r matches Ok(img) && {
            let p = caps@[a].part(region)->0;
            &&& p.holds(x, y)
            &&& img.width == p.w && img.height == p.h
            &&& img.rgba@[4 * ((y - p.y) * p.w + (x - p.x)) + k] == caps@[a].image.rgba@[4 * ((y
                - caps@[a].output.logical_y) * caps@[a].image.width + (x
                - caps@[a].output.logical_x)) + k]
        },
{
    let c = caps@[a];
    only_one_shows(caps@, region, a);
    native_part_of_unscaled(c, region);
    overlap_is_the_common_points(region, c.output.rect());
    let p = c.part(region)->0;
    assert(p.holds(x, y));
    let o = Region {
        x: (p.x - c.output.logical_x) as i32,
        y: (p.y - c.output.logical_y) as i32,
        w: p.w,
        h: p.h,
    };
    a_part_shows_what_it_covers(c.image.rgba@, c.image.width as int, o, x - p.x, y - p.y, k);
}

proof fn only_one_shows(caps: Seq<OutputCapture>, region: Region, a: int)
    requires
        0 <= a < caps.len(),
        caps[a].part(region) is Some,
        forall|m: int| 0 <= m < caps.len() && m != a ==> (#[trigger] caps[m]).part(region) is None,
    ensures
        caps.filter(shows(region)) == seq![caps[a]],
    decreases caps.len(),
{
    reveal(Seq::filter);
    let rest = caps.drop_last();
    if a < rest.len() {
        assert forall|m: int| 0 <= m < rest.len() && m != a implies (#[trigger] rest[m]).part(
            region,
        ) is None by {
            assert(rest[m] == caps[m]);
        }
        only_one_shows(rest, region, a);
        assert(caps[caps.len() - 1].part(region) is None);
    } else {
        none_shows(rest, region);
        assert(Seq::<OutputCapture>::empty().push(caps[a]) =~= seq![caps[a]]);
    }
}

proof fn none_shows(caps: Seq<OutputCapture>, region: Region)
    requires
        forall|m: int| 0 <= m < caps.len() ==> (#[trigger] caps[m]).part(region) is None,
    ensures
        caps.filter(shows(region)).len() == 0,
    decreases caps.len(),
{
    reveal(Seq::filter);
    if caps.len() > 0 {
        assert(caps[caps.len() - 1].part(region) is None);
        assert forall|m: int| 0 <= m < caps.len() - 1 implies (#[trigger] caps.drop_last()[m]).part(
            region,
        ) is None by {
            assert(caps.drop_last()[m] == caps[m]);
        }
        none_shows(caps.drop_last(), region);
    }
}

/// A region that no output holds a point of cannot be composed, nor one without area; any other
/// can.
pub proof fn what_is_off_screen_is_refused(
    caps: &[OutputCapture],
    region: Region,
    r: Result<CapturedImage, CaptureError>,
)
    requires
        call_ensures(composite, (caps, region), r),
    ensures
        region.w == 0 || region.h == 0 <==> r matches Err(CaptureError::EmptyRegion),
        region.w > 0 && region.h > 0 && (forall|m: int, x: int, y: int|
            0 <= m < caps@.len() && region.holds(x, y) ==> !(#[trigger] (
            caps@[m]).output.rect().holds(x, y))) ==> r matches Err(CaptureError::RegionOffscreen),
        forall|m: int, x: int, y: int|
            0 <= m < caps@.len() && region.holds(x, y) && (#[trigger] caps@[m].output.rect().holds(
                x,
                y,
            )) ==> r is Ok,
{
    if forall|m: int, x: int, y: int|
        0 <= m < caps@.len() && region.holds(x, y) ==> !(#[trigger] (caps@[m]).output.rect().holds(
            x,
            y,
        )) {
        assert forall|m: int| 0 <= m < caps@.len() implies (#[trigger] caps@[m]).part(region)
            is None by {
            overlap_is_the_common_points(region, caps@[m].output.rect());
            if let Some(p) = caps@[m].part(region) {
                assert(p.holds(p.x as int, p.y as int));
                assert(caps@[m].output.rect().holds(p.x as int, p.y as int));
            }
        }
        none_shows(caps@, region);
    }
    assert forall|m: int, x: int, y: int|
        0 <= m < caps@.len() && region.holds(x, y) && (#[trigger] caps@[m].output.rect().holds(
            x,
            y,
        )) implies r is Ok by {
        overlap_is_the_common_points(region, caps@[m].output.rect());
        one_that_shows(caps@, region, m);
    }
}

/// A distance is scaled as the capture is: it has as many of the capture's pixels as it has
/// points, times the pixels per point, to the nearest that double precision tells.
pub proof fn distances_scale_with_the_capture(k: int, c: int, d: nat)
    requires
        d > 0,
        magnitude(k) * magnitude(c) <= 0x4_0000_0000_0000,
    ensures
        2 * (times_ratio(k, c, d) * d - k * c) <= d + 2,
        2 * (k * c - times_ratio(k, c, d) * d) <= d + 2,
{
    let (mk, mc) = (magnitude(k), magnitude(c));
    let (a, b) = nearest(mc, d, DOUBLE as nat);
    let m = cut(mk * a, 1, DOUBLE as nat) as int;
    products_are_near(mk, mc, d, DOUBLE as nat);
    let e = (mk * mc) as int;
    let h = half_up((m as nat, b)) as int;
    assert(-(b as int) <= m * d - e * b <= b) by (nonlinear_arith)
        requires
            -(3 * (e * b)) <= 2 * 0x10_0000_0000_0000 * (m * d - e * b) <= 3 * (e * b),
            0 <= e <= 0x4_0000_0000_0000,
            b > 0,
    {
        assert(e * b <= 0x4_0000_0000_0000 * b);
    }
    let bb = b as int;
    assert(2 * (h * bb) - bb <= 2 * m <= 2 * (h * bb) + bb) by (nonlinear_arith)
        requires
            h == (2 * m + bb) / (2 * bb),
            bb > 0,
    ;
    let dd = d as int;
    assert(2 * (h * dd - e) <= dd + 2 && 2 * (e - h * dd) <= dd + 2) by (nonlinear_arith)
        requires
            2 * (h * bb) - bb <= 2 * m <= 2 * (h * bb) + bb,
            -bb <= m * dd - e * bb <= bb,
            bb > 0,
            dd > 0,
    {
        assert(2 * (h * bb) * dd - bb * dd <= 2 * m * dd <= 2 * (h * bb) * dd + bb * dd);
        assert((2 * (h * dd - e) - dd - 2) * bb <= 0);
        assert((2 * (e - h * dd) - dd - 2) * bb <= 0);
    }
    assert(k * c == e || k * c == -e) by (nonlinear_arith)
        requires
            e == mk * mc,
            mk == k || mk == -k,
            mc == c || mc == -c,
    ;
    assert((-h) * dd == -(h * dd)) by (nonlinear_arith);
    assert((k < 0) == (c < 0) ==> k * c == e) by (nonlinear_arith)
        requires
            e == mk * mc,
            k < 0 ==> mk == -k,
            k >= 0 ==> mk == k,
            c < 0 ==> mc == -c,
            c >= 0 ==> mc == c,
    ;
    assert((k < 0) != (c < 0) ==> k * c == -e) by (nonlinear_arith)
        requires
            e == mk * mc,
            k < 0 ==> mk == -k,
            k >= 0 ==> mk == k,
            c < 0 ==> mc == -c,
            c >= 0 ==> mc == c,
    ;
}

/// A region's place and size in a capture: its distances from the output's own edges and its
/// sides, each scaled along its own axis.
pub proof fn each_axis_is_scaled_by_itself(
    lr: Region,
    capture: (i32, i32),
    logical: Region,
    r: Region,
)
    requires
        call_ensures(scale_into_capture, (lr, capture, logical), r),
        0 < capture.0 <= 0xffff,
        0 < capture.1 <= 0xffff,
        0 < lr.w <= 0xffff,
        0 < lr.h <= 0xffff,
        0 <= logical.x - lr.x <= lr.w,
        0 <= logical.y - lr.y <= lr.h,
        logical.w <= lr.w,
        logical.h <= lr.h,
    ensures
        -(lr.w + 2) <= 2 * (r.x * lr.w - (logical.x - lr.x) * capture.0) <= lr.w + 2,
        -(lr.h + 2) <= 2 * (r.y * lr.h - (logical.y - lr.y) * capture.1) <= lr.h + 2,
        -(lr.w + 2) <= 2 * (r.w * lr.w - logical.w * capture.0) <= lr.w + 2,
        -(lr.h + 2) <= 2 * (r.h * lr.h - logical.h * capture.1) <= lr.h + 2,
{
    scaled_within_bounds(logical.x - lr.x, capture.0 as int, lr.w as nat);
    scaled_within_bounds(logical.y - lr.y, capture.1 as int, lr.h as nat);
    scaled_within_bounds(logical.w as int, capture.0 as int, lr.w as nat);
    scaled_within_bounds(logical.h as int, capture.1 as int, lr.h as nat);
}

proof fn scaled_within_bounds(k: int, c: int, d: nat)
    requires
        0 <= k <= d,
        0 < d <= 0xffff,
        0 < c <= 0xffff,
    ensures
        0 <= times_ratio(k, c, d) <= 0x1_0002,
        -(d + 2) <= 2 * (times_ratio(k, c, d) * d - k * c) <= d + 2,
{
    assert(0 <= k * c <= 0xffff * 0xffff) by (nonlinear_arith)
        requires
            0 <= k <= 0xffff,
            0 <= c <= 0xffff,
    ;
    distances_scale_with_the_capture(k, c, d);
    let t = times_ratio(k, c, d);
    assert(t >= 0) by {
        let f = (
            cut(
                magnitude(k) * nearest(magnitude(c), d, DOUBLE as nat).0,
                1,
                DOUBLE as nat,
            ),
            nearest(magnitude(c), d, DOUBLE as nat).1,
        );
        assert(t == half_up(f));
    }
    assert(t <= 0x1_0002) by (nonlinear_arith)
        requires
            2 * (t * d - k * c) <= d + 2,
            0 <= k <= d,
            0 < c <= 0xffff,
            0 < d,
    {
        assert(k * c <= d * c);
        assert(d * c <= d * 0xffff);
    }
}

/// A window is resolved where one window and no other is meant: none is an error that says so,
/// and of several none is taken.
pub proof fn one_window_is_meant(
    toplevels: &[Toplevel],
    filter: WindowFilter<'_>,
    r: Result<&Toplevel, CaptureError>,
)
    requires
        call_ensures(resolve_window, (toplevels, filter), r),
    ensures
        (forall|i: int|
            0 <= i < toplevels@.len() ==> !filter.selects(
                (#[trigger] toplevels@[i]).app_id@,
                toplevels@[i].title@,
            )) <==> r matches Err(CaptureError::NoWindowMatches(_)),
        r matches Ok(t) ==> exists|i: int|
            0 <= i < toplevels@.len() && *t == #[trigger] toplevels@[i] && filter.selects(
                t.app_id@,
                t.title@,
            ),
        forall|i: int, j: int|
            0 <= i < j < toplevels@.len() && filter.selects(
                (#[trigger] toplevels@[i]).app_id@,
                toplevels@[i].title@,
            ) && filter.selects((#[trigger] toplevels@[j]).app_id@, toplevels@[j].title@) ==> r
                matches Err(CaptureError::AmbiguousWindow { .. }),
{
    let p = selected_by(filter);
    let hits = toplevels@.filter(p);
    broadcast use vstd::seq_lib::group_filter_ensures;

    if hits.len() > 0 {
        assert(p(hits[0]));
        assert(hits.contains(hits[0]));
        toplevels@.lemma_filter_contains_rev(p, hits[0]);
        let i = choose|i: int| 0 <= i < toplevels@.len() && toplevels@[i] == hits[0];
        assert(filter.selects(toplevels@[i].app_id@, toplevels@[i].title@));
    }
    assert forall|i: int|
        0 <= i < toplevels@.len() && filter.selects(
            (#[trigger] toplevels@[i]).app_id@,
            toplevels@[i].title@,
        ) implies hits.len() > 0 by {
        assert(p(toplevels@[i]));
        toplevels@.lemma_filter_contains(p, i);
    }
    assert forall|i: int, j: int|
        0 <= i < j < toplevels@.len() && filter.selects(
            (#[trigger] toplevels@[i]).app_id@,
            toplevels@[i].title@,
        ) && filter.selects(
            (#[trigger] toplevels@[j]).app_id@,
            toplevels@[j].title@,
        ) implies hits.len() >= 2 by {
        assert(p(toplevels@[i]) && p(toplevels@[j]));
        two_pass(toplevels@, p, i, j);
    }
}

proof fn two_pass<T>(s: Seq<T>, p: spec_fn(T) -> bool, a: int, b: int)
    requires
        0 <= a < b < s.len(),
        p(s[a]),
        p(s[b]),
    ensures
        s.filter(p).len() >= 2,
    decreases s.len(),
{
    reveal(Seq::filter);
    let rest = s.drop_last();
    if b < rest.len() {
        two_pass(rest, p, a, b);
    } else {
        rest.lemma_filter_contains(p, a);
        assert(rest.filter(p).contains(rest[a]));
    }
}

/// A window is meant by both of its names where both are given, by the one that is, and by
/// neither where none is.
pub proof fn a_filter_asks_for_what_it_names(
    app_id: Option<&str>,
    title: Option<&str>,
    a: &str,
    t: &str,
    both: bool,
    one: bool,
    other: bool,
)
    requires
        call_ensures(
            WindowFilter::matches,
            (&(WindowFilter { app_id, title }), a, t),
            both,
        ),
        call_ensures(
            WindowFilter::matches,
            (&(WindowFilter { app_id, title: None }), a, t),
            one,
        ),
        call_ensures(
            WindowFilter::matches,
            (&(WindowFilter { app_id: None, title }), a, t),
            other,
        ),
    ensures
        both <==> one && other,
        app_id is None ==> one,
        title is None ==> other,
        app_id matches Some(n) ==> (n@ == a@ ==> one) && (one ==> n@.len() == a@.len()),
        title matches Some(n) ==> (other <==> contains(lowercase(t@), lowercase(n@))),
{
}

/// A window is found by its identifier, the first that has it, and not found only where none
/// does.
pub proof fn a_window_is_found_by_its_identifier(
    toplevels: &[Toplevel],
    id: &str,
    r: Result<&Toplevel, CaptureError>,
)
    requires
        call_ensures(find_window, (toplevels, id), r),
    ensures
        r matches Ok(t) ==> t.identifier@ == id@ && exists|i: int|
            0 <= i < toplevels@.len() && #[trigger] toplevels@[i] == *t && forall|j: int|
                0 <= j < i ==> (#[trigger] toplevels@[j]).identifier@ != id@,
        r is Err <==> forall|i: int|
            0 <= i < toplevels@.len() ==> (#[trigger] toplevels@[i]).identifier@ != id@,
{
    window_stands(toplevels@, id@, 0);
}

proof fn window_stands(v: Seq<Toplevel>, id: Seq<char>, k: int)
    requires
        0 <= k,
    ensures
        match window_position(v, id, k) {
            Some(i) => k <= i < v.len() && v[i].identifier@ == id && forall|j: int|
                k <= j < i ==> (#[trigger] v[j]).identifier@ != id,
            None => forall|j: int| k <= j < v.len() ==> (#[trigger] v[j]).identifier@ != id,
        },
    decreases v.len() - k,
{
    if k < v.len() && v[k].identifier@ != id {
        window_stands(v, id, k + 1);
    }
}

/// An output is chosen by its name, and without one only where there is no choice.
pub proof fn an_output_is_chosen_by_its_name(
    outputs: &[Output],
    name: Option<&str>,
    r: Result<&Output, CaptureError>,
)
    requires
        call_ensures(choose_output, (outputs, name), r),
    ensures
        r matches Ok(o) ==> exists|i: int| 0 <= i < outputs@.len() && #[trigger] outputs@[i] == *o,
        name matches Some(n) ==> (r matches Ok(o) ==> o.name@ == n@),
        name matches Some(n) ==> (r is Err <==> forall|i: int|
            0 <= i < outputs@.len() ==> (#[trigger] outputs@[i]).name@ != n@),
        name is None ==> (r is Ok <==> outputs@.len() == 1),
{
    if let Some(n) = name {
        output_stands(outputs@, n@, 0);
    } else if outputs@.len() == 1 {
        assert(outputs@[0] == outputs@[0]);
    }
}

proof fn output_stands(v: Seq<Output>, name: Seq<char>, k: int)
    requires
        0 <= k,
    ensures
        match output_position(v, name, k) {
            Some(i) => k <= i < v.len() && v[i].name@ == name,
            None => forall|j: int| k <= j < v.len() ==> (#[trigger] v[j]).name@ != name,
        },
    decreases v.len() - k,
{
    if k < v.len() && v[k].name@ != name {
        output_stands(v, name, k + 1);
    }
}

/// The whole layout holds every point that an output holds, and no rectangle that holds all the
/// outputs is smaller.
pub proof fn the_layout_is_the_least_that_holds_the_outputs(
    outputs: &[Output],
    b: Region,
    i: int,
    px: int,
    py: int,
    c: Region,
)
    requires
        call_ensures(whole_layout, (outputs,), Ok::<Region, CaptureError>(b)),
        0 <= i < outputs@.len(),
        outputs@[i].rect().holds(px, py),
        forall|j: int|
            0 <= j < outputs@.len() ==> c.x <= (#[trigger] outputs@[j]).rect().x && c.y
                <= outputs@[j].rect().y && outputs@[j].rect().right() <= c.right()
                && outputs@[j].rect().bottom() <= c.bottom(),
    ensures
        b.holds(px, py),
        c.x <= b.x,
        c.y <= b.y,
        b.x + b.w <= c.x + c.w,
        b.y + b.h <= c.y + c.h,
{
    let rects = output_rects(outputs@);
    assert(rects[i] == outputs@[i].rect());
    assert forall|j: int| 0 <= j < rects.len() implies c.x <= (#[trigger] rects[j]).x && c.y
        <= rects[j].y && rects[j].right() <= c.right() && rects[j].bottom() <= c.bottom() by {
        assert(rects[j] == outputs@[j].rect());
    }
}

/// The outputs of a region are those that share a point with it.
pub proof fn outputs_of_a_region_share_a_point_with_it(
    outputs: &[Output],
    region: Region,
    v: Vec<Output>,
    i: int,
)
    requires
        call_ensures(outputs_in_region, (outputs, region), Ok::<Vec<Output>, CaptureError>(v)),
        0 <= i < outputs@.len(),
    ensures
        v@.contains(outputs@[i]) <==> exists|px: int, py: int|
            region.holds(px, py) && #[trigger] outputs@[i].rect().holds(px, py),
{
    let p = output_shows(region);
    let o = outputs@[i];
    broadcast use vstd::seq_lib::group_filter_ensures;

    overlap_is_the_common_points(region, o.rect());
    if p(o) {
        outputs@.lemma_filter_contains(p, i);
        let common = region.overlap(&o.rect())->0;
        assert(common.holds(common.x as int, common.y as int));
        assert(o.rect().holds(common.x as int, common.y as int));
    }
    if v@.contains(o) {
        let k = choose|k: int| 0 <= k < v@.len() && v@[k] == o;
        assert(p(v@[k]));
    }
}

/// A picture of the size that is asked for is left as it is; another gets that size.
pub proof fn a_picture_gets_the_size_asked_for(
    img: CapturedImage,
    nw: u32,
    nh: u32,
    r: CapturedImage,
)
    requires
        call_ensures(resize, (img, nw, nh), r),
        img.wf(),
    ensures
        nw == img.width && nh == img.height ==> r.rgba@ == img.rgba@ && r.width == img.width
            && r.height == img.height,
        nw > 0 && nh > 0 ==> r.width == nw && r.height == nh && r.rgba@.len() == nw * nh * 4,
        nw == 0 || nh == 0 ==> r.rgba@ == img.rgba@,
{
}

/// A capture that failed is tried again only where it went through the GPU and that is not turned
/// off; what came of any other is the result.
pub proof fn only_the_gpus_failures_are_tried_again(
    was_gpu: bool,
    off: bool,
    image: Result<CapturedImage, CaptureError>,
    r: Attempt,
)
    requires
        call_ensures(capture_to_image, (was_gpu, off, image), r),
    ensures
        r is ThroughShm <==> image is Err && was_gpu && !off,
        r matches Attempt::Done(i) ==> i == image,
        r matches Attempt::ThroughShm(e) ==> image == Err::<CapturedImage, CaptureError>(e),
{
}

} // verus!
