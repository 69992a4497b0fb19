//! The cursor image of a seat's pointer.
//!
//! The image is the focused client's to set: it is undefined after each enter until that
//! client sets one, so a surface that never sets one inherits whatever the previous client
//! left. [`Pointer`] holds the shape that is wanted, and has it sent again on every enter.

use vstd::prelude::*;

verus! {

/// A seat's pointer and the cursor image it shows.
#[derive(Clone, Copy, Debug, PartialEq, Eq, Structural)]
pub struct Pointer {
    /// Whether the seat has a pointer whose image can be set.
    pub device: bool,
    /// The serial of the enter that brought the pointer over one of the surfaces; `None`
    /// while it is elsewhere.
    pub entered: Option<u32>,
    /// The shape that is wanted, by its number in the protocol.
    pub cursor: u32,
}

/// The shape a pointer has to begin with.
pub const SHAPE_DEFAULT: u32 = 1;

/// A shape to send, against an enter's serial.
#[derive(Clone, Copy, Debug, PartialEq, Eq, Structural)]
pub struct Sent {
    pub serial: u32,
    pub shape: u32,
}

impl Pointer {
    /// Without the protocol nothing can set an image, and the surface keeps whatever the
    /// pointer arrived with.
    pub fn new() -> (r: Pointer)
        ensures
            r == (Pointer { device: false, entered: None, cursor: SHAPE_DEFAULT }),
    {
        Pointer { device: false, entered: None, cursor: SHAPE_DEFAULT }
    }

    /// The seat has a pointer; `device` says whether its image can be set. Nothing changes if
    /// it had one already.
    pub fn create(&mut self, device: bool)
        ensures
            *final(self) == (Pointer { device: old(self).device || device, ..*old(self) }),
    {
        if !self.device {
            self.device = device;
        }
    }

    fn send(&self, serial: u32) -> (r: Option<Sent>)
        ensures
            r == if self.device {
                Some(Sent { serial, shape: self.cursor })
            } else {
                None
            },
    {
        if self.device {
            Some(Sent { serial, shape: self.cursor })
        } else {
            None
        }
    }

    /// The image to show from here on, sent right away if the pointer is over one of the
    /// surfaces. The compositor takes it only against the current enter's serial; with the
    /// pointer elsewhere there is none, and the next enter sends it.
    pub fn set_cursor(&mut self, cursor: u32) -> (r: Option<Sent>)
        ensures
            *final(self) == (Pointer { cursor, ..*old(self) }),
            r == if cursor != old(self).cursor && old(self).device {
                match old(self).entered {
                    Some(serial) => Some(Sent { serial, shape: cursor }),
                    None => None,
                }
            } else {
                None
            },
    {
        if cursor == self.cursor {
            return None;
        }
        self.cursor = cursor;
        match self.entered {
            Some(serial) => self.send(serial),
            None => None,
        }
    }

    /// The pointer entered a surface: the image is sent again, which is what makes it stick.
    pub fn on_enter(&mut self, serial: u32) -> (r: Option<Sent>)
        ensures
            *final(self) == (Pointer { entered: Some(serial), ..*old(self) }),
            r == if old(self).device {
                Some(Sent { serial, shape: old(self).cursor })
            } else {
                None
            },
    {
        self.entered = Some(serial);
        self.send(serial)
    }

    /// The pointer left.
    pub fn on_leave(&mut self)
        ensures
            *final(self) == (Pointer { entered: None, ..*old(self) }),
    {
        self.entered = None;
    }
}

/// The shape that is wanted is sent on every enter, and again when it changes in between; nothing
/// is sent of a shape that is there already, or to a surface the pointer is not over.
pub proof fn the_wanted_shape_is_sent(
    p: &mut Pointer,
    q: &mut Pointer,
    serial: u32,
    cursor: u32,
    a: Option<Sent>,
    b: Option<Sent>,
)
    requires
        call_ensures(Pointer::on_enter, (p, serial), a),
        *old(q) == *final(p),
        call_ensures(Pointer::set_cursor, (q, cursor), b),
    ensures
        old(p).device ==> (a matches Some(s) && s.serial == serial && s.shape == old(p).cursor),
        !old(p).device ==> a is None && b is None,
        old(p).device && cursor != old(p).cursor ==> (b matches Some(s) && s.serial == serial
            && s.shape == cursor),
        cursor == old(p).cursor ==> b is None,
        final(q).cursor == cursor,
{
}

/// A pointer that left is sent no shape, but gets the one that was wanted meanwhile when it
/// enters again.
pub proof fn a_shape_waits_for_the_pointer(
    p: &mut Pointer,
    q: &mut Pointer,
    s: &mut Pointer,
    cursor: u32,
    serial: u32,
    a: Option<Sent>,
    b: Option<Sent>,
)
    requires
        call_ensures(Pointer::on_leave, (p,), ()),
        *old(q) == *final(p),
        call_ensures(Pointer::set_cursor, (q, cursor), a),
        *old(s) == *final(q),
        call_ensures(Pointer::on_enter, (s, serial), b),
        old(p).device,
    ensures
        a is None,
        b matches Some(t) && t.serial == serial && t.shape == cursor,
{
}

} // verus!
