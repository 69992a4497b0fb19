//! Common output seam for capture-consuming tools (screenshot, record, timelapse).
//!
//! A capture round yields a [`Frame`]: pixels in memory, or a buffer on the GPU. A
//! [`FrameSink`] consumes a stream of those frames. Most sinks only want pixels, so by
//! default a buffer is read back and the pixels pushed; a sink that can use the buffer where
//! it is takes it. Reading back is the work of the caller's GPU context: [`pump`] says when a
//! context is to be built and when it is to read a buffer back, and [`pump_read`] takes it
//! from there. The context is asked for on first need, so a stream that never leaves memory
//! never builds one.

use crate::error::{CaptureError, Result};
use crate::image::CapturedImage;
use std::time::Duration;
use vstd::prelude::*;

verus! {

/// One captured frame.
pub enum Frame<D> {
    /// Pixels in memory.
    Shm(CapturedImage),
    /// A buffer on the GPU.
    Dmabuf(D),
}

/// What a sink does with a buffer on the GPU.
pub enum Taken<D> {
    /// It has consumed the buffer, or failed to.
    Done(Result<()>),
    /// It wants the buffer's pixels: read it back and push them.
    ReadBack(D),
}

/// A consumer of a capture stream. `D` is what its frames on the GPU are, `R` the context
/// that can read one back. A frame's time is relative to a start the sink defines (a
/// screenshot ignores it; a recorder uses it for timing).
pub trait FrameSink<D, R>: Sized {
    /// What a push may do: the sink before it, what it was given, the sink after it, and
    /// what it returned. A sink that says nothing may do anything.
    open spec fn pushed(
        before: Self,
        img: CapturedImage,
        ts: Duration,
        after: Self,
        r: Result<()>,
    ) -> bool {
        true
    }

    /// What taking a buffer may do, beyond asking for its pixels: the sink and the context
    /// before it, what the sink was given, both after it, and what came of it.
    open spec fn took(
        before: (Self, R),
        frame: D,
        ts: Duration,
        after: (Self, R),
        r: Taken<D>,
    ) -> bool {
        true
    }

    /// What finishing may do, beyond nothing.
    open spec fn finished(before: Self, after: Self, r: Result<()>) -> bool {
        true
    }

    /// Consume one frame of pixels.
    fn push(&mut self, img: &CapturedImage, ts: Duration) -> (r: Result<()>)
        ensures
            Self::pushed(*old(self), *img, ts, *final(self), r),
    ;

    /// Consume one frame on the GPU. By default its pixels are wanted; override to consume
    /// it where it is.
    fn push_dmabuf(&mut self, rb: &mut R, frame: D, ts: Duration) -> (r: Taken<D>)
        ensures
            ({
                ||| Self::took((*old(self), *old(rb)), frame, ts, (*final(self), *final(rb)), r)
                ||| *final(self) == *old(self) && *final(rb) == *old(rb) && r == Taken::ReadBack(
                    frame,
                )
            }),
        default_ensures
            *final(self) == *old(self),
            *final(rb) == *old(rb),
            r == Taken::ReadBack(frame),
    {
        Taken::ReadBack(frame)
    }

    /// Flush and finalize (write the file, close the encoder, …). Call once, last. By default
    /// there is nothing to do.
    fn finish(&mut self) -> (r: Result<()>)
        ensures
            ({
                ||| Self::finished(*old(self), *final(self), r)
                ||| *final(self) == *old(self) && r == Ok::<(), CaptureError>(())
            }),
        default_ensures
            *final(self) == *old(self),
            r == Ok::<(), CaptureError>(()),
    {
        Ok(())
    }
}

/// What became of a frame.
pub enum Pumped<D> {
    /// The sink has taken it, or refused it.
    Pushed(Result<()>),
    /// A context is to be built, and the buffer pumped again.
    Build(D),
    /// The buffer is to be read back in the context, and its pixels handed on.
    ReadBack(D),
}

/// What becomes of a frame with which a sink did that.
pub open spec fn came_of<D>(t: Taken<D>) -> Pumped<D> {
    match t {
        Taken::Done(r) => Pumped::Pushed(r),
        Taken::ReadBack(d) => Pumped::ReadBack(d),
    }
}

/// Route one frame to the sink: pixels are pushed, a buffer on the GPU is offered to it with
/// the context. Keep one context across the whole stream: it is built for the first buffer.
pub fn pump<D, R, S: FrameSink<D, R>>(
    sink: &mut S,
    rb: &mut Option<R>,
    frame: Frame<D>,
    ts: Duration,
) -> (r: Pumped<D>)
    ensures
        match (frame, *old(rb)) {
            (Frame::Shm(img), _) => *final(rb) == *old(rb) && (r matches Pumped::Pushed(p)
                && S::pushed(*old(sink), img, ts, *final(sink), p)),
            (Frame::Dmabuf(d), None) => *final(sink) == *old(sink) && *final(rb) == *old(rb) && r
                == Pumped::Build(d),
            (Frame::Dmabuf(d), Some(before)) => *final(rb) matches Some(after) && exists|t: Taken<D>|
                #![trigger came_of(t)]
                r == came_of(t) && (S::took((*old(sink), before), d, ts, (*final(sink), after), t)
                    || (*final(sink) == *old(sink) && after == before && t == Taken::ReadBack(d))),
        },
{
    match frame {
        Frame::Shm(img) => Pumped::Pushed(sink.push(&img, ts)),
        Frame::Dmabuf(d) => match rb {
            None => Pumped::Build(d),
            Some(context) => {
                let t = sink.push_dmabuf(context, d, ts);
                let ghost took = t;
                let r = match t {
                    Taken::Done(r) => Pumped::Pushed(r),
                    Taken::ReadBack(d) => Pumped::ReadBack(d),
                };
                assert(r == came_of(took));
                r
            },
        },
    }
}

/// Hand the sink what a readback gave. A failed readback is the frame's error, and the sink
/// sees nothing of it.
pub fn pump_read<D, R, S: FrameSink<D, R>>(
    sink: &mut S,
    read: Result<CapturedImage>,
    ts: Duration,
) -> (r: Result<()>)
    ensures
        match read {
            Ok(img) => S::pushed(*old(sink), img, ts, *final(sink), r),
            Err(e) => *final(sink) == *old(sink) && r == Err::<(), _>(e),
        },
{
    match read {
        Ok(img) => sink.push(&img, ts),
        Err(e) => Err(e),
    }
}

} // verus!
