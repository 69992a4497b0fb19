//! Video encoding: what turning a capture stream into a file takes, frame by frame.
//!
//! A [`VideoEncoder`] follows the stream and says what its encoder has to do. The pipeline
//! is opened on the first frame, so the dimensions are learned from the stream; the scaler
//! is rebuilt when the source changes size.
//!
//! Two timing modes (see [`Mode`]): a real-time recording keeps each frame's wall clock as a
//! variable-frame-rate timestamp; a timelapse renumbers the sampled frames sequentially at
//! the output frame rate, so the result plays back sped up.

use crate::image::CapturedImage;
use crate::text::{decimal, push_decimal};
use vstd::prelude::*;
use vstd::string::*;

verus! {

/// Which encoder to use. [`Backend::Auto`] picks the first available, preferring hardware
/// (NVENC, then VAAPI) over the software fallback.
#[derive(Clone, Copy, Debug, PartialEq, Eq, Structural)]
pub enum Backend {
    /// Choose the best available backend at runtime.
    Auto,
    /// NVIDIA NVENC (`h264_nvenc`). Takes frames in memory and uploads them itself.
    Nvenc,
    /// VAAPI (`h264_vaapi`) on a DRM render node. Uses a hardware frame pool.
    Vaapi,
    /// Software `libx264`. Always works; uses the CPU.
    Software,
}

impl Backend {
    /// The encoder's name; `Auto` has none.
    pub open spec fn codec(self) -> Seq<char> {
        match self {
            Backend::Nvenc => "h264_nvenc"@,
            Backend::Vaapi => "h264_vaapi"@,
            _ => "libx264"@,
        }
    }

    /// The encoder's name, for a backend that was resolved.
    pub fn codec_name(self) -> (r: &'static str)
        requires
            self != Backend::Auto,
        ensures
            r@ == self.codec(),
    {
        match self {
            Backend::Nvenc => "h264_nvenc",
            Backend::Vaapi => "h264_vaapi",
            _ => "libx264",
        }
    }
}

/// Timing behaviour for the output stream.
#[derive(Clone, Copy, Debug, PartialEq, Eq, Structural)]
pub enum Mode {
    /// Real-time: each frame keeps its capture timestamp (variable frame rate).
    Record,
    /// Timelapse: sampled frames are renumbered sequentially at `fps`, so the footage plays
    /// back faster than real time.
    Timelapse,
}

/// Encoder configuration. Dimensions are learned from the first frame.
pub struct Options {
    pub backend: Backend,
    /// Output frame rate (the playback rate; also the rate-control hint).
    pub fps: u32,
    pub mode: Mode,
    /// DRM render node for the VAAPI backend (ignored otherwise).
    pub device: Option<String>,
}

impl Default for Options {
    fn default() -> (r: Self)
        ensures
            r == (Options { backend: Backend::Auto, fps: 30, mode: Mode::Record, device: None }),
    {
        Options { backend: Backend::Auto, fps: 30, mode: Mode::Record, device: None }
    }
}

/// The encoders that are there.
#[derive(Clone, Copy)]
pub struct Encoders {
    pub nvenc: bool,
    pub vaapi: bool,
    pub software: bool,
}

impl Encoders {
    /// Whether the backend's encoder is there.
    pub open spec fn has(self, b: Backend) -> bool {
        match b {
            Backend::Auto => false,
            Backend::Nvenc => self.nvenc,
            Backend::Vaapi => self.vaapi,
            Backend::Software => self.software,
        }
    }
}

/// Why nothing can be encoded.
#[derive(Clone, Copy, Debug, PartialEq, Eq, Structural)]
pub enum VideoError {
    /// No encoder is there at all.
    NoEncoder,
    /// The encoder that was asked for is not there.
    Unavailable(Backend),
    /// The source has no even width and height above zero.
    TooSmall { width: u32, height: u32 },
}

impl VideoError {
    /// The message.
    pub open spec fn text(self) -> Seq<char> {
        match self {
            VideoError::NoEncoder => "no H.264 encoder available (need NVENC, VAAPI or libx264)"@,
            VideoError::Unavailable(b) => "encoder '"@ + b.codec()
                + "' is not available in this FFmpeg build"@,
            VideoError::TooSmall { width, height } => "source too small to encode ("@ + decimal(
                width as nat,
            ) + "x"@ + decimal(height as nat) + ")"@,
        }
    }

    /// The message.
    pub fn to_string(&self) -> (r: String)
        requires
            *self != VideoError::Unavailable(Backend::Auto),
        ensures
            r@ == self.text(),
    {
        match *self {
            VideoError::NoEncoder => String::from_str(
                "no H.264 encoder available (need NVENC, VAAPI or libx264)",
            ),
            VideoError::Unavailable(b) => {
                let mut out = String::from_str("encoder '");
                out.append(b.codec_name());
                out.append("' is not available in this FFmpeg build");
                out
            },
            VideoError::TooSmall { width, height } => {
                let mut out = String::from_str("source too small to encode (");
                push_decimal(&mut out, width as u64);
                out.append("x");
                push_decimal(&mut out, height as u64);
                out.append(")");
                out
            },
        }
    }
}

/// The backend that is used.
pub open spec fn resolved(backend: Backend, there: Encoders) -> Result<Backend, VideoError> {
    match backend {
        Backend::Auto => if there.nvenc {
            Ok(Backend::Nvenc)
        } else if there.vaapi {
            Ok(Backend::Vaapi)
        } else if there.software {
            Ok(Backend::Software)
        } else {
            Err(VideoError::NoEncoder)
        },
        b => if there.has(b) {
            Ok(b)
        } else {
            Err(VideoError::Unavailable(b))
        },
    }
}

/// Resolve `Auto` to the first available backend; verify that a concrete one is there.
pub fn resolve_backend(backend: Backend, there: Encoders) -> (r: Result<Backend, VideoError>)
    ensures
        r == resolved(backend, there),
        r matches Ok(b) ==> b != Backend::Auto && there.has(b),
        r != Err::<Backend, _>(VideoError::Unavailable(Backend::Auto)),
{
    let found = match backend {
        Backend::Auto => {
            return if there.nvenc {
                Ok(Backend::Nvenc)
            } else if there.vaapi {
                Ok(Backend::Vaapi)
            } else if there.software {
                Ok(Backend::Software)
            } else {
                Err(VideoError::NoEncoder)
            };
        },
        Backend::Nvenc => there.nvenc,
        Backend::Vaapi => there.vaapi,
        Backend::Software => there.software,
    };
    if found {
        Ok(backend)
    } else {
        Err(VideoError::Unavailable(backend))
    }
}

/// How pixels are laid out for an encoder.
#[derive(Clone, Copy, Debug, PartialEq, Eq, Structural)]
pub enum Pixel {
    /// Planar, in memory.
    Yuv420p,
    /// Two planes, in memory.
    Nv12,
    /// A VAAPI surface.
    Vaapi,
}

/// What the encoder is set up with.
#[derive(Clone, Copy, Debug, PartialEq, Eq, Structural)]
pub struct Plan {
    pub backend: Backend,
    /// Even width (H.264 chroma is subsampled 2×2).
    pub width: u32,
    /// Even height.
    pub height: u32,
    /// The encoder's input.
    pub enc_format: Pixel,
    /// The scaler's output: what the encoder takes, but for VAAPI, to which a frame in
    /// memory is uploaded.
    pub target_format: Pixel,
    /// Seconds per tick of the timestamps are one in this many.
    pub ticks: i32,
    /// Frames per second, a hint to the rate control.
    pub frame_rate: i32,
}

/// The largest even number not above `n`.
pub open spec fn even(n: u32) -> u32 {
    (n - n % 2) as u32
}

/// What the encoder is set up with for a source of that size.
pub open spec fn planned(
    backend: Backend,
    fps: u32,
    mode: Mode,
    there: Encoders,
    width: u32,
    height: u32,
) -> Result<Plan, VideoError> {
    match resolved(backend, there) {
        Err(e) => Err(e),
        Ok(b) => if even(width) == 0 || even(height) == 0 {
            Err(VideoError::TooSmall { width, height })
        } else {
            Ok(
                Plan {
                    backend: b,
                    width: even(width),
                    height: even(height),
                    enc_format: match b {
                        Backend::Vaapi => Pixel::Vaapi,
                        Backend::Nvenc => Pixel::Nv12,
                        _ => Pixel::Yuv420p,
                    },
                    target_format: match b {
                        Backend::Vaapi | Backend::Nvenc => Pixel::Nv12,
                        _ => Pixel::Yuv420p,
                    },
                    ticks: match mode {
                        Mode::Record => 1000,
                        Mode::Timelapse => fps as i32,
                    },
                    frame_rate: fps as i32,
                },
            )
        },
    }
}

fn plan(opts: &Options, there: Encoders, width: u32, height: u32) -> (r: Result<Plan, VideoError>)
    ensures
        r == planned(opts.backend, opts.fps, opts.mode, there, width, height),
        r != Err::<Plan, _>(VideoError::Unavailable(Backend::Auto)),
{
    let b = match resolve_backend(opts.backend, there) {
        Ok(b) => b,
        Err(e) => {
            return Err(e);
        },
    };
    let w: u32 = width - width % 2;
    let h: u32 = height - height % 2;
    if w == 0 || h == 0 {
        return Err(VideoError::TooSmall { width, height });
    }
    let (enc_format, target_format) = match b {
        Backend::Vaapi => (Pixel::Vaapi, Pixel::Nv12),
        Backend::Nvenc => (Pixel::Nv12, Pixel::Nv12),
        _ => (Pixel::Yuv420p, Pixel::Yuv420p),
    };
    let rate: i32 = #[verifier::truncate]
    (opts.fps as i32);
    let ticks: i32 = match opts.mode {
        Mode::Record => 1000,
        Mode::Timelapse => rate,
    };
    Ok(
        Plan {
            backend: b,
            width: w,
            height: h,
            enc_format,
            target_format,
            ticks,
            frame_rate: rate,
        },
    )
}

/// The live pipeline, opened on the first frame.
pub struct Pipeline {
    /// What the encoder was set up with.
    pub plan: Plan,
    /// Source size the current scaler was built for.
    pub src: (u32, u32),
    /// The last timestamp that was given.
    pub last_pts: i64,
    /// The frames that were stamped, for timelapse timestamps.
    pub index: i64,
}

/// What a frame asks of the encoder next.
#[derive(Clone, Copy, Debug, PartialEq, Eq, Structural)]
pub enum Step {
    /// Open the output, the encoder and the scaler.
    Open(Plan),
    /// Build the scaler anew for this source size.
    Rescale(u32, u32),
    /// Scale, stamp and encode the frame.
    Encode,
    /// The frame is empty: nothing to do.
    Skip,
}

/// An encoder's side of a capture stream.
pub struct VideoEncoder {
    pub opts: Options,
    pub pipeline: Option<Pipeline>,
}

/// The timestamp of the next frame.
pub open spec fn next_pts(mode: Mode, p: Pipeline, ts: u64) -> int {
    match mode {
        Mode::Record => if (ts as i64) > p.last_pts + 1 {
            (ts as i64) as int
        } else {
            p.last_pts + 1
        },
        Mode::Timelapse => p.index as int,
    }
}

impl VideoEncoder {
    /// An encoder with nothing opened: that waits for the first frame.
    pub fn new(opts: Options) -> (r: VideoEncoder)
        ensures
            r == (VideoEncoder { opts, pipeline: None }),
    {
        VideoEncoder { opts, pipeline: None }
    }

    /// The backend that will actually be used (resolves `Auto`); handy for logging.
    pub fn resolved_backend(&self, there: Encoders) -> (r: Result<Backend, VideoError>)
        ensures
            r == resolved(self.opts.backend, there),
            r != Err::<Backend, _>(VideoError::Unavailable(Backend::Auto)),
    {
        resolve_backend(self.opts.backend, there)
    }

    /// What a frame of that size asks for next.
    pub open spec fn due(&self, there: Encoders, width: u32, height: u32) -> Result<
        Step,
        VideoError,
    > {
        match self.pipeline {
            None => match planned(
                self.opts.backend,
                self.opts.fps,
                self.opts.mode,
                there,
                width,
                height,
            ) {
                Ok(p) => Ok(Step::Open(p)),
                Err(e) => Err(e),
            },
            Some(p) => Ok(
                if width == 0 || height == 0 {
                    Step::Skip
                } else if p.src != (width, height) {
                    Step::Rescale(width, height)
                } else {
                    Step::Encode
                },
            ),
        }
    }

    /// What a frame of that size asks for next: the pipeline is opened on the first frame,
    /// an empty frame is passed over, and the scaler follows the source's size.
    pub fn step(&self, there: Encoders, width: u32, height: u32) -> (r: Result<Step, VideoError>)
        ensures
            r == self.due(there, width, height),
            r != Err::<Step, _>(VideoError::Unavailable(Backend::Auto)),
    {
        match &self.pipeline {
            None => match plan(&self.opts, there, width, height) {
                Ok(p) => Ok(Step::Open(p)),
                Err(e) => Err(e),
            },
            Some(p) => if width == 0 || height == 0 {
                Ok(Step::Skip)
            } else if p.src.0 != width || p.src.1 != height {
                Ok(Step::Rescale(width, height))
            } else {
                Ok(Step::Encode)
            },
        }
    }

    /// The pipeline was opened for a source of that size.
    pub fn opened(&mut self, plan: Plan, width: u32, height: u32)
        ensures
            *final(self) == (VideoEncoder {
                opts: old(self).opts,
                pipeline: Some(Pipeline { plan, src: (width, height), last_pts: -1i64, index: 0 }),
            }),
    {
        self.pipeline = Some(Pipeline { plan, src: (width, height), last_pts: -1, index: 0 });
    }

    /// The scaler was built anew for a source of that size.
    pub fn rescaled(&mut self, width: u32, height: u32)
        ensures
            final(self).opts == old(self).opts,
            final(self).pipeline == match old(self).pipeline {
                Some(p) => Some(Pipeline { src: (width, height), ..p }),
                None => None,
            },
    {
        if let Some(p) = &mut self.pipeline {
            p.src = (width, height);
        }
    }

    /// Stamp a frame: a recording keeps its capture time in milliseconds, moved up where two
    /// frames share one; a timelapse counts.
    pub fn stamp(&mut self, ts: u64) -> (r: Option<i64>)
        requires
            old(self).pipeline matches Some(p) ==> p.last_pts < i64::MAX && p.index < i64::MAX,
        ensures
            final(self).opts == old(self).opts,
            match old(self).pipeline {
                Some(p) => {
                    &&& r matches Some(pts)
                    &&& pts == next_pts(old(self).opts.mode, p, ts)
                    &&& final(self).pipeline == Some(
                        Pipeline { last_pts: pts, index: (p.index + 1) as i64, ..p },
                    )
                },
                None => r is None && final(self).pipeline is None,
            },
    {
        let mode = self.opts.mode;
        match &mut self.pipeline {
            Some(p) => {
                let ms: i64 = #[verifier::truncate]
                (ts as i64);
                let pts: i64 = match mode {
                    Mode::Record => if ms > p.last_pts + 1 {
                        ms
                    } else {
                        p.last_pts + 1
                    },
                    Mode::Timelapse => p.index,
                };
                p.last_pts = pts;
                p.index = p.index + 1;
                Some(pts)
            },
            None => None,
        }
    }

    /// The stream has ended. Whether there is a file to finish: with no frame captured there
    /// is none.
    pub fn finish(&mut self) -> (r: bool)
        ensures
            r == (old(self).pipeline is Some),
            *final(self) == (VideoEncoder { opts: old(self).opts, pipeline: None }),
    {
        let opened = self.pipeline.is_some();
        self.pipeline = None;
        opened
    }
}

/// A recording's timestamps strictly increase, whatever the frames' capture times are.
pub proof fn recorded_timestamps_increase(p: Pipeline, ts: u64)
    ensures
        next_pts(Mode::Record, p, ts) > p.last_pts,
{
}

/// A timelapse's timestamps count up by one, whatever the frames' capture times are.
pub proof fn timelapse_timestamps_count(p: Pipeline, first: u64, second: u64)
    requires
        p.index < i64::MAX,
    ensures
        next_pts(
            Mode::Timelapse,
            Pipeline {
                last_pts: next_pts(Mode::Timelapse, p, first) as i64,
                index: (p.index + 1) as i64,
                ..p
            },
            second,
        ) == next_pts(Mode::Timelapse, p, first) + 1,
{
}

/// `dst` after its first `n` rows were written: each row goes where the stride says, the
/// padding between them is left alone.
pub open spec fn rows_copied(dst: Seq<u8>, rgba: Seq<u8>, row: int, stride: int, n: int) -> Seq<u8>
    decreases n,
{
    if n <= 0 {
        dst
    } else {
        let before = rows_copied(dst, rgba, row, stride, n - 1);
        let at = (n - 1) * stride;
        Seq::new(
            before.len(),
            |i: int|
                if at <= i < at + row {
                    rgba[(n - 1) * row + (i - at)]
                } else {
                    before[i]
                },
        )
    }
}

/// Rows that do not overlap are all there in the end.
proof fn a_row_stays(dst: Seq<u8>, rgba: Seq<u8>, row: int, stride: int, n: int, y: int, k: int)
    requires
        0 <= y < n,
        0 <= k < row <= stride,
        (n - 1) * stride + row <= dst.len(),
    ensures
        rows_copied(dst, rgba, row, stride, n).len() == dst.len(),
        rows_copied(dst, rgba, row, stride, n)[y * stride + k] == rgba[y * row + k],
    decreases n,
{
    lengths_stay(dst, rgba, row, stride, n);
    lengths_stay(dst, rgba, row, stride, n - 1);
    assert(0 <= y * stride) by (nonlinear_arith)
        requires
            0 <= y,
            0 <= stride,
    ;
    if y == n - 1 {
    } else {
        assert(y * stride + stride <= (n - 1) * stride) by (nonlinear_arith)
            requires
                y + 1 <= n - 1,
                0 <= stride,
        ;
        assert((n - 2) * stride <= (n - 1) * stride) by (nonlinear_arith)
            requires
                0 <= stride,
        ;
        a_row_stays(dst, rgba, row, stride, n - 1, y, k);
    }
}

proof fn lengths_stay(dst: Seq<u8>, rgba: Seq<u8>, row: int, stride: int, n: int)
    ensures
        rows_copied(dst, rgba, row, stride, n).len() == dst.len(),
    decreases n,
{
    if n > 0 {
        lengths_stay(dst, rgba, row, stride, n - 1);
    }
}

/// Rows that are at least as far apart as they are long come through whole: the byte `k` of
/// row `y` is where the stride puts it.
pub proof fn no_row_is_sheared(
    dst: Seq<u8>,
    img: CapturedImage,
    stride: usize,
    y: int,
    k: int,
)
    requires
        img.wf(),
        img.width * 4 <= stride,
        0 <= y < img.height,
        0 <= k < img.width * 4,
        (img.height - 1) * stride + img.width * 4 <= dst.len(),
    ensures
        rows_copied(dst, img.rgba@, img.width * 4, stride as int, img.height as int)[y * stride + k]
            == img.rgba@[y * (img.width * 4) + k],
{
    a_row_stays(dst, img.rgba@, img.width * 4, stride as int, img.height as int, y, k);
}

/// Copy tightly-packed pixels into a frame, honouring its row stride (rows are padded for
/// alignment, so a flat copy would shear the picture).
pub fn copy_rgba_into(dst: &mut Vec<u8>, stride: usize, img: &CapturedImage)
    requires
        img.wf(),
        img.height > 0 ==> (img.height - 1) * stride + img.width * 4 <= old(dst)@.len(),
    ensures
        final(dst)@ == rows_copied(
            old(dst)@,
            img.rgba@,
            img.width * 4,
            stride as int,
            img.height as int,
        ),
{
    let ghost d0 = dst@;
    if img.height == 0 {
        return;
    }
    let n: usize = dst.len();
    let m: usize = img.rgba.len();
    proof {
        assert(0 <= (img.height - 1) * stride) by (nonlinear_arith)
            requires
                img.height >= 1,
        ;
    }
    let row: usize = img.width as usize * 4;
    let h: usize = img.height as usize;
    for y in 0..h
        invariant
            img.wf(),
            row == img.width * 4,
            h == img.height,
            n == d0.len(),
            m == img.rgba@.len(),
            dst@.len() == n,
            (h - 1) * stride + row <= n,
            dst@ == rows_copied(d0, img.rgba@, row as int, stride as int, y as int),
    {
        assert(y * stride <= (h - 1) * stride && 0 <= y * stride) by (nonlinear_arith)
            requires
                0 <= y <= h - 1,
                0 <= stride,
        ;
        assert(y * row + row <= h * row && 0 <= y * row) by (nonlinear_arith)
            requires
                0 <= y <= h - 1,
                0 <= row,
        ;
        assert(h * row == img.rgba@.len()) by (nonlinear_arith)
            requires
                img.rgba@.len() == img.width * img.height * 4,
                h == img.height,
                row == img.width * 4,
        ;
        let s: usize = y * row;
        let d: usize = y * stride;
        let ghost before = dst@;
        for k in 0..row
            invariant
                n == dst@.len(),
                before.len() == n,
                d + row <= n,
                s + row <= m,
                m == img.rgba@.len(),
                dst@ == Seq::new(
                    before.len(),
                    |i: int|
                        if d <= i < d + k {
                            img.rgba@[s + (i - d)]
                        } else {
                            before[i]
                        },
                ),
        {
            dst.set(d + k, img.rgba[s + k]);
            assert(dst@ =~= Seq::new(
                before.len(),
                |i: int|
                    if d <= i < d + (k + 1) {
                        img.rgba@[s + (i - d)]
                    } else {
                        before[i]
                    },
            ));
        }
        assert(dst@ =~= rows_copied(d0, img.rgba@, row as int, stride as int, y + 1));
    }
}

/// A video is as large as its source, but for a last odd column or row.
pub proof fn a_video_has_even_sides(
    e: VideoEncoder,
    there: Encoders,
    width: u32,
    height: u32,
    p: Plan,
)
    requires
        e.pipeline is None,
        call_ensures(
            VideoEncoder::step,
            (&e, there, width, height),
            Ok::<Step, VideoError>(Step::Open(p)),
        ),
    ensures
        p.width % 2 == 0 && width - 1 <= p.width <= width && p.width > 0,
        p.height % 2 == 0 && height - 1 <= p.height <= height && p.height > 0,
        p.frame_rate == e.opts.fps as i32,
        e.opts.mode == Mode::Record ==> p.ticks == 1000,
        e.opts.mode == Mode::Timelapse ==> p.ticks == e.opts.fps as i32,
{
}

/// What no encoder takes is refused: a source that has not two pixels on a side.
pub proof fn too_small_a_source_is_refused(
    e: VideoEncoder,
    there: Encoders,
    width: u32,
    height: u32,
    r: Result<Step, VideoError>,
)
    requires
        e.pipeline is None,
        call_ensures(VideoEncoder::step, (&e, there, width, height), r),
        there.software,
        e.opts.backend == Backend::Software,
    ensures
        r is Err <==> width < 2 || height < 2,
        width < 2 || height < 2 ==> r == Err::<Step, VideoError>(
            VideoError::TooSmall { width, height },
        ),
{
}

/// Left to itself, the encoder is the first there is of the two in hardware and the one in
/// software; one that was asked for is taken or refused, and none stands in for it.
pub proof fn hardware_is_preferred(
    backend: Backend,
    there: Encoders,
    r: Result<Backend, VideoError>,
)
    requires
        call_ensures(resolve_backend, (backend, there), r),
    ensures
        backend == Backend::Auto && there.nvenc ==> r == Ok::<Backend, VideoError>(Backend::Nvenc),
        backend == Backend::Auto && !there.nvenc && there.vaapi ==> r == Ok::<Backend, VideoError>(
            Backend::Vaapi,
        ),
        backend == Backend::Auto && !there.nvenc && !there.vaapi && there.software ==> r == Ok::<
            Backend,
            VideoError,
        >(Backend::Software),
        r == Err::<Backend, VideoError>(VideoError::NoEncoder) <==> backend == Backend::Auto
            && !there.nvenc && !there.vaapi && !there.software,
        backend != Backend::Auto ==> (r matches Ok(b) ==> b == backend),
        backend == Backend::Nvenc ==> (r is Ok <==> there.nvenc),
        backend == Backend::Vaapi ==> (r is Ok <==> there.vaapi),
        backend == Backend::Software ==> (r is Ok <==> there.software),
{
}

/// Each encoder is given the pixels it takes: those of the graphics card's own memory where it
/// works there, and planes of them otherwise.
pub proof fn each_encoder_gets_its_pixels(
    e: VideoEncoder,
    there: Encoders,
    width: u32,
    height: u32,
    p: Plan,
)
    requires
        e.pipeline is None,
        call_ensures(
            VideoEncoder::step,
            (&e, there, width, height),
            Ok::<Step, VideoError>(Step::Open(p)),
        ),
    ensures
        p.backend != Backend::Auto,
        p.enc_format == Pixel::Vaapi <==> p.backend == Backend::Vaapi,
        p.enc_format == Pixel::Yuv420p <==> p.backend == Backend::Software,
        p.target_format == Pixel::Yuv420p <==> p.backend == Backend::Software,
        p.target_format != Pixel::Vaapi,
{
}

/// Once it is open, a frame of another size has the scaler follow it, after which frames of that
/// size are encoded; an empty one is passed over.
pub proof fn the_scaler_follows_the_source(
    e: &mut VideoEncoder,
    there: Encoders,
    width: u32,
    height: u32,
    a: Result<Step, VideoError>,
    b: Result<Step, VideoError>,
)
    requires
        old(e).pipeline is Some,
        width > 0,
        height > 0,
        call_ensures(VideoEncoder::step, (old(e), there, width, height), a),
        call_ensures(VideoEncoder::rescaled, (e, width, height), ()),
        call_ensures(VideoEncoder::step, (final(e), there, width, height), b),
    ensures
        old(e).pipeline->0.src == (width, height) ==> a == Ok::<Step, VideoError>(Step::Encode),
        old(e).pipeline->0.src != (width, height) ==> a == Ok::<Step, VideoError>(
            Step::Rescale(width, height),
        ),
        b == Ok::<Step, VideoError>(Step::Encode),
{
}

/// A recorded frame keeps the time it was taken at, where that is later than the one before.
pub proof fn a_recorded_frame_keeps_its_time(e: &mut VideoEncoder, ts: u64, r: Option<i64>)
    requires
        call_ensures(VideoEncoder::stamp, (e, ts), r),
        old(e).opts.mode == Mode::Record,
        old(e).pipeline matches Some(p) && p.last_pts < ts <= i64::MAX,
    ensures
        r == Some(ts as i64),
{
}

/// The first frame of a timelapse has the time nought.
pub proof fn a_timelapse_begins_at_nought(
    e: &mut VideoEncoder,
    f: &mut VideoEncoder,
    plan: Plan,
    width: u32,
    height: u32,
    ts: u64,
    r: Option<i64>,
)
    requires
        old(e).opts.mode == Mode::Timelapse,
        call_ensures(VideoEncoder::opened, (e, plan, width, height), ()),
        *old(f) == *final(e),
        call_ensures(VideoEncoder::stamp, (f, ts), r),
    ensures
        r == Some(0i64),
{
}

} // verus!
