//! The capture engine's typed error surface.
//!
//! Conditions a caller may want to react to (present a message, pick a fallback,
//! translate) get their own variant; every lower-level failure flows through
//! [`CaptureError::Backend`], which keeps a human context **and** what the underlying
//! cause said of itself. Variant text is plain technical English, deliberately **not**
//! localised: callers translate by matching the variant.

use crate::text::{decimal, join, join_strings, push_decimal, views};
use vstd::prelude::*;
use vstd::string::*;

verus! {

/// An error from the capture engine.
#[derive(Debug)]
pub enum CaptureError {
    /// The compositor can't capture individual windows: no foreign-toplevel image-capture
    /// source (wlroots < 0.20 / Sway < 1.12), or the only capture protocol it offers is
    /// `zwlr-screencopy`, which addresses outputs. Screen capture may still work.
    WindowsUnsupported,
    /// The compositor offers no protocol to focus a window with.
    ActivationUnsupported,
    /// No outputs are available to capture.
    NoOutputs,
    /// The requested region has zero area.
    EmptyRegion,
    /// The requested region lies outside every output.
    RegionOffscreen,
    /// No output matches the requested name.
    OutputNotFound(String),
    /// No window matches the requested id.
    WindowNotFound(String),
    /// No window matches the requested `app_id` / title filter.
    NoWindowMatches(String),
    /// Several windows match the requested `app_id` / title filter, so the caller has to
    /// narrow it down. `candidates` describes the matches well enough to pick one.
    AmbiguousWindow {
        /// A human description of the filter that was too loose, e.g. `app-id 'firefox'`.
        selector: String,
        /// One pre-formatted line per matching window.
        candidates: Vec<String>,
    },
    /// A geometry string was not in `X,Y WxH` form.
    InvalidGeometry(String),
    /// The capture produced no frame before the deadline.
    CaptureTimeout,
    /// No usable H.264 encoder is available (NVENC, VAAPI or libx264).
    NoVideoEncoder,
    /// The source is too small to encode.
    SourceTooSmall {
        /// Source width in pixels.
        w: u32,
        /// Source height in pixels.
        h: u32,
    },
    /// No audio capture backend is available.
    NoAudioBackend,
    /// A lower-level failure, with a human context and what caused it.
    Backend {
        /// What was being attempted.
        context: String,
        /// The underlying causes, each as it describes itself: the nearest first, and after
        /// each what caused it.
        source: Vec<String>,
    },
}

/// The crate's result type: `Result<T, CaptureError>`.
pub type Result<T, E = CaptureError> = core::result::Result<T, E>;

impl CaptureError {
    /// The text of an error.
    pub open spec fn text(&self) -> Seq<char> {
        match self {
            CaptureError::WindowsUnsupported =>
                "this compositor cannot capture individual windows (needs ext-image-copy-capture-v1 with the foreign-toplevel source: wlroots >= 0.20 / Sway >= 1.12)"@,
            CaptureError::ActivationUnsupported => "this compositor cannot focus windows"@,
            CaptureError::NoOutputs => "no outputs available"@,
            CaptureError::EmptyRegion => "empty region"@,
            CaptureError::RegionOffscreen => "region covers no output"@,
            CaptureError::OutputNotFound(name) => "output '"@ + name@ + "' not found"@,
            CaptureError::WindowNotFound(id) => "window '"@ + id@ + "' not found"@,
            CaptureError::NoWindowMatches(what) => "no window matches "@ + what@,
            CaptureError::AmbiguousWindow { selector, candidates } => selector@ + " matches "@
                + decimal(candidates@.len()) + " windows:\n"@ + join(
                views(candidates@),
                "\n"@,
            ),
            CaptureError::InvalidGeometry(s) => "invalid geometry '"@ + s@
                + "' (expected 'X,Y WxH')"@,
            CaptureError::CaptureTimeout => "capture timed out"@,
            CaptureError::NoVideoEncoder =>
                "no H.264 encoder available (need NVENC, VAAPI or libx264)"@,
            CaptureError::SourceTooSmall { w, h } => "source too small to encode ("@
                + decimal(*w as nat) + "x"@ + decimal(*h as nat) + ")"@,
            CaptureError::NoAudioBackend => "no audio backend available"@,
            CaptureError::Backend { context, .. } => context@,
        }
    }

    /// The error as a message for a person.
    pub fn to_string(&self) -> (r: String)
        ensures
            r@ == self.text(),
    {
        let mut out = String::new();
        match self {
            CaptureError::WindowsUnsupported => {
                return String::from_str(
                    "this compositor cannot capture individual windows (needs ext-image-copy-capture-v1 with the foreign-toplevel source: wlroots >= 0.20 / Sway >= 1.12)",
                );
            },
            CaptureError::ActivationUnsupported => {
                return String::from_str("this compositor cannot focus windows");
            },
            CaptureError::NoOutputs => {
                return String::from_str("no outputs available");
            },
            CaptureError::EmptyRegion => {
                return String::from_str("empty region");
            },
            CaptureError::RegionOffscreen => {
                return String::from_str("region covers no output");
            },
            CaptureError::OutputNotFound(name) => {
                out.append("output '");
                out.append(name.as_str());
                out.append("' not found");
            },
            CaptureError::WindowNotFound(id) => {
                out.append("window '");
                out.append(id.as_str());
                out.append("' not found");
            },
            CaptureError::NoWindowMatches(what) => {
                out.append("no window matches ");
                out.append(what.as_str());
            },
            CaptureError::AmbiguousWindow { selector, candidates } => {
                out.append(selector.as_str());
                out.append(" matches ");
                push_decimal(&mut out, candidates.len() as u64);
                out.append(" windows:\n");
                let lines = join_strings(candidates, "\n");
                out.append(lines.as_str());
            },
            CaptureError::InvalidGeometry(s) => {
                out.append("invalid geometry '");
                out.append(s.as_str());
                out.append("' (expected 'X,Y WxH')");
            },
            CaptureError::CaptureTimeout => {
                return String::from_str("capture timed out");
            },
            CaptureError::NoVideoEncoder => {
                return String::from_str(
                    "no H.264 encoder available (need NVENC, VAAPI or libx264)",
                );
            },
            CaptureError::SourceTooSmall { w, h } => {
                out.append("source too small to encode (");
                push_decimal(&mut out, *w as u64);
                out.append("x");
                push_decimal(&mut out, *h as u64);
                out.append(")");
            },
            CaptureError::NoAudioBackend => {
                return String::from_str("no audio backend available");
            },
            CaptureError::Backend { context, .. } => {
                return context.clone();
            },
        }
        assert(out@ =~= self.text());
        out
    }

    /// What caused the error, the nearest cause first.
    pub open spec fn causes(&self) -> Seq<Seq<char>> {
        match self {
            CaptureError::Backend { source, .. } => views(source@),
            _ => Seq::empty(),
        }
    }

    /// The error's text and those of its causes, each after what it caused.
    pub open spec fn chain(&self) -> Seq<Seq<char>> {
        seq![self.text()] + self.causes()
    }

    /// What the nearest cause said of itself, where there is one.
    pub fn source(&self) -> (r: Option<&String>)
        ensures
            match r {
                Some(c) => self.causes().len() > 0 && c@ == self.causes()[0],
                None => self.causes().len() == 0,
            },
    {
        match self {
            CaptureError::Backend { source, .. } => if source.len() > 0 {
                Some(&source[0])
            } else {
                None
            },
            _ => None,
        }
    }

    /// A message-only backend error (no underlying cause).
    pub fn msg(context: &str) -> (r: Self)
        ensures
            r matches CaptureError::Backend { context: c, source } && c@ == context@
                && source@.len() == 0,
    {
        CaptureError::Backend { context: String::from_str(context), source: Vec::new() }
    }

    /// The causes of an error that this one causes: this one, and its own.
    fn into_causes(self) -> (r: Vec<String>)
        ensures
            views(r@) == self.chain(),
    {
        let mut out: Vec<String> = Vec::new();
        let text = self.to_string();
        let ghost first = text@;
        out.push(text);
        assert(views(out@) =~= seq![first]);
        if let CaptureError::Backend { source, .. } = &self {
            for i in 0..source.len()
                invariant
                    self matches CaptureError::Backend { source: s, .. } && s == *source,
                    views(out@) == seq![first] + views(source@).take(i as int),
            {
                let ghost before = out@;
                out.push(source[i].clone());
                assert(views(out@) =~= views(before).push(source@[i as int]@));
                assert(views(source@).take(i + 1) =~= views(source@).take(i as int).push(
                    views(source@)[i as int],
                ));
            }
            assert(views(source@).take(source@.len() as int) =~= views(source@));
        }
        assert(views(out@) =~= self.chain());
        out
    }
}

/// No cause at all.
pub open spec fn no_cause() -> spec_fn(Vec<String>) -> bool {
    |c: Vec<String>| c@.len() == 0
}

/// `r` is the failure `what`, with causes for which `causes` holds.
pub open spec fn failed_with<T>(
    r: Result<T, CaptureError>,
    what: Seq<char>,
    causes: spec_fn(Vec<String>) -> bool,
) -> bool {
    r matches Err(CaptureError::Backend { context, source }) && context@ == what && causes(source)
}

/// Attach context to a fallible value, mapping its error into [`CaptureError::Backend`]
/// while keeping what the cause said.
pub trait Context<T>: Sized {
    /// The value, where there is one.
    spec fn value(self) -> Option<T>;

    /// Whether these are the causes to keep when there is none.
    spec fn keeps(self, causes: Vec<String>) -> bool;

    /// Wrap the error with a fixed context message.
    fn context(self, context: &str) -> (r: Result<T, CaptureError>)
        ensures
            match self.value() {
                Some(v) => r == Ok::<T, CaptureError>(v),
                None => failed_with(r, context@, |c: Vec<String>| self.keeps(c)),
            },
    ;

    /// Wrap the error with a lazily-built context message (only computed on error).
    fn with_context<F: FnOnce() -> String>(self, f: F) -> (r: Result<T, CaptureError>)
        requires
            self.value() is None ==> f.requires(()),
        ensures
            match self.value() {
                Some(v) => r == Ok::<T, CaptureError>(v),
                None => exists|s: String| #[trigger]
                    f.ensures((), s) && failed_with(r, s@, |c: Vec<String>| self.keeps(c)),
            },
    ;
}

/// The error type of the `anyhow` crate.
#[verifier::external_type_specification]
#[verifier::external_body]
pub struct ExAnyError(anyhow::Error);

/// `anyhow::Error::chain`: what an error and each of its causes say of themselves, the error
/// first and each cause after what it caused. Which causes an error has is its own to say, so
/// nothing is stated of the texts after the first.
#[verifier::external_body]
fn chain_of(e: &anyhow::Error) -> (r: Vec<String>)
    ensures
        r@.len() > 0,
        to_string_from_display_ensures::<anyhow::Error>(e, r@[0]),
{
    e.chain().map(|c| c.to_string()).collect()
}

/// What an error and each of its causes say of themselves.
pub(crate) fn told<E: core::fmt::Display + Into<anyhow::Error>>(e: E) -> (r: Vec<String>)
    ensures
        r@.len() > 0,
        to_string_from_display_ensures::<E>(&e, r@[0]),
{
    let own = e.to_string();
    let mut r = chain_of(&e.into());
    r.set(0, own);
    r
}

impl<T, E: core::fmt::Display + Into<anyhow::Error>> Context<T> for core::result::Result<T, E> {
    open spec fn value(self) -> Option<T> {
        match self {
            Ok(v) => Some(v),
            Err(_) => None,
        }
    }

    /// The error's own text, and after it those of its causes.
    open spec fn keeps(self, causes: Vec<String>) -> bool {
        self matches Err(e) && causes@.len() > 0 && to_string_from_display_ensures::<E>(
            &e,
            causes@[0],
        )
    }

    fn context(self, context: &str) -> (r: Result<T, CaptureError>) {
        match self {
            Ok(v) => Ok(v),
            Err(e) => Err(
                CaptureError::Backend { context: String::from_str(context), source: told(e) },
            ),
        }
    }

    fn with_context<F: FnOnce() -> String>(self, f: F) -> (r: Result<T, CaptureError>) {
        match self {
            Ok(v) => Ok(v),
            Err(e) => {
                let source = told(e);
                Err(CaptureError::Backend { context: f(), source })
            },
        }
    }
}

/// An error of the library's own keeps its whole chain.
impl<T> Context<T> for core::result::Result<T, CaptureError> {
    open spec fn value(self) -> Option<T> {
        match self {
            Ok(v) => Some(v),
            Err(_) => None,
        }
    }

    /// The error and what caused it.
    open spec fn keeps(self, causes: Vec<String>) -> bool {
        self matches Err(e) && views(causes@) == e.chain()
    }

    fn context(self, context: &str) -> (r: Result<T, CaptureError>) {
        match self {
            Ok(v) => Ok(v),
            Err(e) => Err(
                CaptureError::Backend {
                    context: String::from_str(context),
                    source: e.into_causes(),
                },
            ),
        }
    }

    fn with_context<F: FnOnce() -> String>(self, f: F) -> (r: Result<T, CaptureError>) {
        match self {
            Ok(v) => Ok(v),
            Err(e) => {
                let source = e.into_causes();
                Err(CaptureError::Backend { context: f(), source })
            },
        }
    }
}

impl<T> Context<T> for Option<T> {
    open spec fn value(self) -> Option<T> {
        self
    }

    /// An absent value has no cause.
    open spec fn keeps(self, causes: Vec<String>) -> bool {
        causes@.len() == 0
    }

    fn context(self, context: &str) -> (r: Result<T, CaptureError>) {
        match self {
            Some(v) => Ok(v),
            None => Err(CaptureError::msg(context)),
        }
    }

    fn with_context<F: FnOnce() -> String>(self, f: F) -> (r: Result<T, CaptureError>) {
        match self {
            Some(v) => Ok(v),
            None => Err(CaptureError::Backend { context: f(), source: Vec::new() }),
        }
    }
}

} // verus!
