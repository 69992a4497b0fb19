//! The clipboard: what a selection that offers one blob answers to those who paste it.
//!
//! The Wayland clipboard is *pull*-based: the data lives in the providing client, which must
//! stay alive and write the bytes whenever a consumer pastes, until another client takes the
//! selection over.

use crate::text::same;
use vstd::prelude::*;

verus! {

/// A selection.
pub struct ClipState {
    /// The MIME type that is advertised; paste requests for anything else get nothing.
    pub mime: String,
    /// The bytes to hand a consumer that pastes.
    pub data: Vec<u8>,
    /// Set once another client took the selection: time to exit.
    pub done: bool,
}

impl ClipState {
    /// Offer a blob under a MIME type.
    pub fn new(mime: String, data: Vec<u8>) -> (r: ClipState)
        ensures
            r == (ClipState { mime, data, done: false }),
    {
        ClipState { mime, data, done: false }
    }

    /// A consumer is pasting: the bytes to write into the pipe it handed over, or nothing
    /// for another MIME type.
    pub fn send(&self, mime: &str) -> (r: Option<&Vec<u8>>)
        ensures
            match r {
                Some(d) => mime@ == self.mime@ && *d == self.data,
                None => mime@ != self.mime@,
            },
    {
        if same(mime, self.mime.as_str()) {
            Some(&self.data)
        } else {
            None
        }
    }

    /// The selection was replaced by another client: nothing is left to serve.
    pub fn cancelled(&mut self)
        ensures
            *final(self) == (ClipState { done: true, ..*old(self) }),
    {
        self.done = true;
    }
}

/// What is pasted is what was copied, to those who ask for it as what it is.
pub proof fn what_is_pasted_was_copied(
    mime: String,
    data: Vec<u8>,
    c: ClipState,
    asked: &str,
    r: Option<&Vec<u8>>,
)
    requires
        call_ensures(ClipState::new, (mime, data), c),
        call_ensures(ClipState::send, (&c, asked), r),
    ensures
        asked@ == mime@ ==> (r matches Some(d) && *d == data),
        asked@ != mime@ ==> r is None,
        !c.done,
{
}

} // verus!
