//! The overlay's host: what the keyboard does to the picker, and hold-to-switch.
//!
//! The host outlives the overlay it shows. Between two it holds none: nothing is on screen
//! and no keyboard is held.

use crate::hints::{prints, Keymap};
use crate::keys::{
    press_behind, KeyPress, Press,
    KEY_ALT_L, KEY_ALT_R, KEY_BACKSPACE, KEY_DELETE, KEY_DOWN, KEY_END, KEY_ESCAPE, KEY_HOME,
    KEY_ISO_LEFT_TAB, KEY_KP_ENTER, KEY_LEFT, KEY_META_L, KEY_META_R, KEY_RETURN, KEY_RIGHT,
    KEY_SPACE, KEY_SUPER_L, KEY_SUPER_R, KEY_TAB, KEY_UP,
};
use crate::text::{char_is_control, chars_of, is_control};
use crate::ui::{App, Overlay};
use vstd::prelude::*;
use vstd::string::*;

verus! {

/// Keysyms that count as "Alt" for hold-to-switch (either Alt or Meta).
pub open spec fn alt_key(k: u32) -> bool {
    k == KEY_ALT_L || k == KEY_ALT_R || k == KEY_META_L || k == KEY_META_R
}

/// Keysyms that count as "Super" (the main modifier on most setups).
pub open spec fn logo_key(k: u32) -> bool {
    k == KEY_SUPER_L || k == KEY_SUPER_R
}

/// Whether a keysym counts as "Alt" for hold-to-switch.
pub fn is_alt(k: u32) -> (r: bool)
    ensures
        r == alt_key(k),
{
    k == KEY_ALT_L || k == KEY_ALT_R || k == KEY_META_L || k == KEY_META_R
}

/// Whether a keysym counts as "Super" for hold-to-switch.
pub fn is_logo(k: u32) -> (r: bool)
    ensures
        r == logo_key(k),
{
    k == KEY_SUPER_L || k == KEY_SUPER_R
}

/// The keys the UI is told of.
#[derive(Clone, Copy, Debug, PartialEq, Eq, Structural)]
pub enum UiKey {
    Escape,
    Enter,
    Tab,
    Backspace,
    Delete,
    ArrowLeft,
    ArrowRight,
    ArrowUp,
    ArrowDown,
    Home,
    End,
    Space,
}

/// The key a keysym is to the UI.
pub open spec fn ui_key(k: u32) -> Option<UiKey> {
    if k == KEY_ESCAPE {
        Some(UiKey::Escape)
    } else if k == KEY_RETURN || k == KEY_KP_ENTER {
        Some(UiKey::Enter)
    } else if k == KEY_TAB || k == KEY_ISO_LEFT_TAB {
        Some(UiKey::Tab)
    } else if k == KEY_BACKSPACE {
        Some(UiKey::Backspace)
    } else if k == KEY_DELETE {
        Some(UiKey::Delete)
    } else if k == KEY_LEFT {
        Some(UiKey::ArrowLeft)
    } else if k == KEY_RIGHT {
        Some(UiKey::ArrowRight)
    } else if k == KEY_UP {
        Some(UiKey::ArrowUp)
    } else if k == KEY_DOWN {
        Some(UiKey::ArrowDown)
    } else if k == KEY_HOME {
        Some(UiKey::Home)
    } else if k == KEY_END {
        Some(UiKey::End)
    } else if k == KEY_SPACE {
        Some(UiKey::Space)
    } else {
        None
    }
}

/// The key a keysym is to the UI, if it is one it acts on.
pub fn map_key(k: u32) -> (r: Option<UiKey>)
    ensures
        r == ui_key(k),
{
    if k == KEY_ESCAPE {
        Some(UiKey::Escape)
    } else if k == KEY_RETURN || k == KEY_KP_ENTER {
        Some(UiKey::Enter)
    } else if k == KEY_TAB || k == KEY_ISO_LEFT_TAB {
        Some(UiKey::Tab)
    } else if k == KEY_BACKSPACE {
        Some(UiKey::Backspace)
    } else if k == KEY_DELETE {
        Some(UiKey::Delete)
    } else if k == KEY_LEFT {
        Some(UiKey::ArrowLeft)
    } else if k == KEY_RIGHT {
        Some(UiKey::ArrowRight)
    } else if k == KEY_UP {
        Some(UiKey::ArrowUp)
    } else if k == KEY_DOWN {
        Some(UiKey::ArrowDown)
    } else if k == KEY_HOME {
        Some(UiKey::Home)
    } else if k == KEY_END {
        Some(UiKey::End)
    } else if k == KEY_SPACE {
        Some(UiKey::Space)
    } else {
        None
    }
}

/// The pointer's buttons.
#[derive(Clone, Copy, Debug, PartialEq, Eq, Structural)]
pub enum Button {
    Primary,
    Secondary,
    Middle,
}

/// The button of an evdev code; others are passed over.
pub fn map_button(code: u32) -> (r: Option<Button>)
    ensures
        r == if code == 0x110 {
            Some(Button::Primary)
        } else if code == 0x111 {
            Some(Button::Secondary)
        } else if code == 0x112 {
            Some(Button::Middle)
        } else {
            None
        },
{
    if code == 0x110 {
        Some(Button::Primary)
    } else if code == 0x111 {
        Some(Button::Secondary)
    } else if code == 0x112 {
        Some(Button::Middle)
    } else {
        None
    }
}

/// The modifiers the UI is told of.
#[derive(Clone, Copy, Debug, PartialEq, Eq, Structural)]
pub struct Mods {
    pub alt: bool,
    pub ctrl: bool,
    pub shift: bool,
}

/// The overlay being shown and the keyboard around it.
pub struct Host {
    /// The overlay being shown, or `None` while the host sits idle between two.
    pub app: Option<App>,
    /// The seat's keymap, as last announced.
    pub keymap: Option<Keymap>,
    /// The modifiers the UI was last told of.
    pub mods: Mods,
    /// The surface's size in points; 0 until it is known.
    pub width: u32,
    pub height: u32,
    /// The surface's integer scale.
    pub scale: u32,
    /// Hold-to-switch on: watch the launch modifier (Alt or Super) to arm and confirm.
    pub hold: bool,
    /// A launch modifier was observed held: the cycle keys act and its release confirms.
    pub armed: bool,
    /// Current physical state of Alt and Super (from the modifier mask and raw keysyms).
    pub alt_down: bool,
    pub logo_down: bool,
    /// Which modifiers were held when the host armed; it confirms once none remains held.
    pub armed_alt: bool,
    pub armed_logo: bool,
    /// Whether an armed modifier was held before, to detect the release edge.
    pub prev_held: bool,
    /// Keyboard focus came in and the modifier state that must follow it hasn't yet: only
    /// then can a launch modifier released before focus be told apart.
    pub awaiting_enter_modifiers: bool,
}

/// The host's state, as it is spoken of.
pub struct Watch {
    pub app: Option<Overlay>,
    pub keymap: Option<Keymap>,
    pub mods: Mods,
    pub width: u32,
    pub height: u32,
    pub scale: u32,
    pub hold: bool,
    pub armed: bool,
    pub alt_down: bool,
    pub logo_down: bool,
    pub armed_alt: bool,
    pub armed_logo: bool,
    pub prev_held: bool,
    pub awaiting_enter_modifiers: bool,
}

impl View for Host {
    type V = Watch;

    open spec fn view(&self) -> Watch {
        Watch {
            app: match self.app {
                Some(a) => Some(a@),
                None => None,
            },
            keymap: self.keymap,
            mods: self.mods,
            width: self.width,
            height: self.height,
            scale: self.scale,
            hold: self.hold,
            armed: self.armed,
            alt_down: self.alt_down,
            logo_down: self.logo_down,
            armed_alt: self.armed_alt,
            armed_logo: self.armed_logo,
            prev_held: self.prev_held,
            awaiting_enter_modifiers: self.awaiting_enter_modifiers,
        }
    }
}

/// Whether a keysym is among those held.
pub open spec fn any_alt(held: Seq<u32>) -> bool {
    exists|i: int| 0 <= i < held.len() && alt_key(#[trigger] held[i])
}

/// Whether a keysym is among those held.
pub open spec fn any_logo(held: Seq<u32>) -> bool {
    exists|i: int| 0 <= i < held.len() && logo_key(#[trigger] held[i])
}

impl Watch {
    /// With an overlay installed for one run: the keymap, the size and the scale stay, and
    /// everything else starts anew.
    pub open spec fn begun(self, app: Overlay) -> Watch {
        Watch {
            app: Some(
                match self.keymap {
                    Some(k) => app.mapped(k),
                    None => app,
                },
            ),
            keymap: self.keymap,
            mods: Mods { alt: false, ctrl: false, shift: false },
            width: self.width,
            height: self.height,
            scale: self.scale,
            hold: app.hold,
            armed: false,
            alt_down: false,
            logo_down: false,
            armed_alt: false,
            armed_logo: false,
            prev_held: false,
            awaiting_enter_modifiers: false,
        }
    }

    /// Whether any modifier the host armed on is still physically held.
    pub open spec fn holds(self) -> bool {
        (self.armed_alt && self.alt_down) || (self.armed_logo && self.logo_down)
    }

    /// Armed on the modifiers that are held, if there is an overlay and one is.
    pub open spec fn arming(self) -> Watch {
        if !self.armed && (self.alt_down || self.logo_down) && self.app is Some {
            Watch {
                armed: true,
                armed_alt: self.alt_down,
                armed_logo: self.logo_down,
                app: Some(Overlay { revealed: true, ..self.app->0.now_armed() }),
                ..self
            }
        } else {
            self
        }
    }

    /// The modifiers were taken into account: arm once one is held, then confirm on the
    /// release edge.
    pub open spec fn reconciled(self) -> Watch {
        if !self.hold {
            self
        } else {
            let w = self.arming();
            let held = w.holds();
            let done = if w.armed && w.prev_held && !held && w.app is Some {
                Some(w.app->0.confirmed())
            } else {
                w.app
            };
            Watch { app: done, prev_held: held, ..w }
        }
    }

    /// No launch modifier is held once the state at focus-in is known: it was released
    /// before, so no release will come.
    pub open spec fn inferred(self) -> Watch {
        if !self.armed && self.app is Some {
            Watch { app: Some(self.app->0.now_armed().confirmed()), ..self }
        } else {
            self
        }
    }

    /// The keyboard came in, with those keys held.
    pub open spec fn entered(self, held: Seq<u32>) -> Watch {
        if !self.hold {
            self
        } else {
            Watch {
                awaiting_enter_modifiers: true,
                ..Watch { alt_down: any_alt(held), logo_down: any_logo(held), ..self }.reconciled()
            }
        }
    }

    /// The modifiers changed.
    pub open spec fn modified(self, mods: Mods, logo: bool) -> Watch {
        let w = Watch { mods, alt_down: mods.alt, logo_down: logo, ..self }.reconciled();
        let x = Watch { awaiting_enter_modifiers: false, ..w };
        if w.awaiting_enter_modifiers {
            x.inferred()
        } else {
            x
        }
    }

    /// A key's own part in the modifiers: a second signal, as the order of the mask and the
    /// focus varies between compositors.
    pub open spec fn followed(self, keysym: u32, pressed: bool) -> Watch {
        let w = if alt_key(keysym) {
            Watch { alt_down: pressed, ..self }.reconciled()
        } else {
            self
        };
        if logo_key(keysym) {
            Watch { logo_down: pressed, ..w }.reconciled()
        } else {
            w
        }
    }

    /// The key press behind a key, where it has a name.
    pub open spec fn press(self, keysym: u32, code: u32) -> Option<Press> {
        let plain = match self.keymap {
            Some(k) => prints(k.keys@, code, 0),
            None => Seq::empty(),
        };
        press_behind(keysym, plain, self.mods.shift)
    }

    /// Whether a key moves the highlight on while armed, or else back, instead of reaching
    /// the UI.
    pub open spec fn cycles(self, keysym: u32, code: u32, pressed: bool) -> Option<bool> {
        if !(self.armed && pressed && self.app is Some) {
            None
        } else if self.press(keysym, code) == Some(self.app->0.cycle.0) {
            Some(true)
        } else if self.press(keysym, code) == Some(self.app->0.cycle.1) {
            Some(false)
        } else {
            None
        }
    }

    /// Whether a key picks the tile it labels.
    pub open spec fn hints(self, code: u32, pressed: bool) -> bool {
        pressed && self.app is Some && self.app->0.hinted(code) is Some
    }

    /// A key was pressed or released.
    pub open spec fn keyed(self, keysym: u32, code: u32, pressed: bool) -> Watch {
        let w = self.followed(keysym, pressed);
        if let Some(forward) = w.cycles(keysym, code, pressed) {
            Watch { app: Some(w.app->0.cycled(forward)), ..w }
        } else if w.hints(code, pressed) {
            Watch { app: Some(w.app->0.hint_pressed(code)), ..w }
        } else {
            w
        }
    }

    /// Whether a key reaches the UI.
    pub open spec fn passes(self, keysym: u32, code: u32, pressed: bool) -> bool {
        let w = self.followed(keysym, pressed);
        w.cycles(keysym, code, pressed) is None && !w.hints(code, pressed)
    }
}

/// What the UI is told of a key.
pub struct Delivered {
    /// The key, if it is one the UI acts on.
    pub key: Option<UiKey>,
    /// The text it types, if any.
    pub text: Option<String>,
}

/// A text that can be typed: not empty, and without control characters.
pub open spec fn typed(s: Seq<char>) -> bool {
    s.len() > 0 && forall|i: int| 0 <= i < s.len() ==> !is_control(#[trigger] s[i])
}

fn is_typed(s: &str) -> (r: bool)
    ensures
        r == typed(s@),
{
    let chars = chars_of(s);
    for i in 0..chars.len()
        invariant
            chars@ == s@,
            forall|j: int| 0 <= j < i ==> !is_control(#[trigger] chars@[j]),
    {
        if char_is_control(chars[i]) {
            assert(is_control(s@[i as int]));
            return false;
        }
    }
    chars.len() > 0
}

impl Host {
    /// An idle host.
    pub fn new() -> (r: Host)
        ensures
            r@ == (Watch {
                app: None,
                keymap: None,
                mods: Mods { alt: false, ctrl: false, shift: false },
                width: 0,
                height: 0,
                scale: 1,
                hold: false,
                armed: false,
                alt_down: false,
                logo_down: false,
                armed_alt: false,
                armed_logo: false,
                prev_held: false,
                awaiting_enter_modifiers: false,
            }),
    {
        Host {
            app: None,
            keymap: None,
            mods: Mods { alt: false, ctrl: false, shift: false },
            width: 0,
            height: 0,
            scale: 1,
            hold: false,
            armed: false,
            alt_down: false,
            logo_down: false,
            armed_alt: false,
            armed_logo: false,
            prev_held: false,
            awaiting_enter_modifiers: false,
        }
    }

    /// Whether the run is over: no overlay installed, or the one installed is done.
    pub fn closing(&self) -> (r: bool)
        ensures
            r == (self@.app is None || self@.app->0.closing),
    {
        match &self.app {
            Some(a) => a.closing(),
            None => true,
        }
    }

    /// Install the overlay for one run, resetting everything the previous one left behind so
    /// a reused host opens exactly like a fresh process would. The size and the scale stay,
    /// which the first configure corrects.
    pub fn begin(&mut self, app: App)
        ensures
            final(self)@ == old(self)@.begun(app@),
    {
        self.hold = app.hold();
        let mut app = app;
        if let Some(keymap) = &self.keymap {
            app.set_keymap(keymap);
        }
        self.app = Some(app);
        self.mods = Mods { alt: false, ctrl: false, shift: false };
        self.armed = false;
        self.alt_down = false;
        self.logo_down = false;
        self.armed_alt = false;
        self.armed_logo = false;
        self.prev_held = false;
        self.awaiting_enter_modifiers = false;
    }

    /// Take the overlay down, and hand it back.
    pub fn end(&mut self) -> (r: Option<App>)
        ensures
            r == old(self).app,
            final(self)@ == (Watch { app: None, ..old(self)@ }),
    {
        self.app.take()
    }

    fn any_armed_held(&self) -> (r: bool)
        ensures
            r == self@.holds(),
    {
        (self.armed_alt && self.alt_down) || (self.armed_logo && self.logo_down)
    }

    /// Reconcile hold-to-switch from the current modifiers: arm once one is held, then
    /// confirm the selection on the release edge, without waiting for a painted frame. A
    /// held modifier means a switch the user is steering, not a tap passing through, so the
    /// tiles are drawn from there on.
    pub fn reconcile(&mut self)
        ensures
            final(self)@ == old(self)@.reconciled(),
    {
        if !self.hold {
            return;
        }
        if !self.armed && (self.alt_down || self.logo_down) {
            if let Some(app) = &mut self.app {
                app.arm();
                app.unveil();
                self.armed = true;
                self.armed_alt = self.alt_down;
                self.armed_logo = self.logo_down;
            }
        }
        assert(self@ == old(self)@.arming());
        let held = self.any_armed_held();
        if self.armed && self.prev_held && !held {
            if let Some(app) = &mut self.app {
                app.confirm_release();
            }
        }
        self.prev_held = held;
    }

    /// Confirm if no launch modifier is held once focus-in's modifier state is known: it was
    /// released before the keyboard came in, so no release event will come.
    pub fn infer_release(&mut self)
        ensures
            final(self)@ == old(self)@.inferred(),
    {
        if !self.armed {
            if let Some(app) = &mut self.app {
                app.arm();
                app.confirm_release();
            }
        }
    }

    /// The keyboard came in, with these keys held. On most compositors the modifier that
    /// launched the overlay is still down here; some report it in the modifiers that follow,
    /// so whether it was released is decided once they are in.
    pub fn enter(&mut self, keysyms: &[u32])
        ensures
            final(self)@ == old(self)@.entered(keysyms@),
    {
        if !self.hold {
            return;
        }
        let mut alt = false;
        let mut logo = false;
        for i in 0..keysyms.len()
            invariant
                alt == exists|j: int| 0 <= j < i && alt_key(#[trigger] keysyms@[j]),
                logo == exists|j: int| 0 <= j < i && logo_key(#[trigger] keysyms@[j]),
        {
            if is_alt(keysyms[i]) {
                alt = true;
            }
            if is_logo(keysyms[i]) {
                logo = true;
            }
        }
        self.alt_down = alt;
        self.logo_down = logo;
        self.reconcile();
        self.awaiting_enter_modifiers = true;
    }

    /// The modifiers changed: the authoritative state for hold-to-switch. Whether the UI has
    /// to be told.
    pub fn update_modifiers(&mut self, mods: Mods, logo: bool) -> (r: bool)
        ensures
            final(self)@ == old(self)@.modified(mods, logo),
            r == (mods != old(self)@.mods),
    {
        let changed = mods != self.mods;
        self.mods = mods;
        self.alt_down = mods.alt;
        self.logo_down = logo;
        self.reconcile();
        let awaited = self.awaiting_enter_modifiers;
        self.awaiting_enter_modifiers = false;
        if awaited {
            self.infer_release();
        }
        changed
    }

    /// The keymap arrived or changed. It is kept as well as forwarded: it is announced once,
    /// with the keyboard, and an overlay created later would otherwise never learn what the
    /// physical keys its hints name actually print.
    pub fn update_keymap(&mut self, keymap: Keymap)
        ensures
            final(self)@ == (Watch {
                app: match old(self)@.app {
                    Some(o) => Some(o.mapped(keymap)),
                    None => None,
                },
                keymap: Some(keymap),
                ..old(self)@
            }),
    {
        if let Some(app) = &mut self.app {
            app.set_keymap(&keymap);
        }
        self.keymap = Some(keymap);
    }

    fn follow(&mut self, keysym: u32, pressed: bool)
        ensures
            final(self)@ == old(self)@.followed(keysym, pressed),
    {
        if is_alt(keysym) {
            self.alt_down = pressed;
            self.reconcile();
        }
        if is_logo(keysym) {
            self.logo_down = pressed;
            self.reconcile();
        }
    }

    fn cycling(&self, keysym: u32, code: u32) -> (r: Option<bool>)
        ensures
            r == self@.cycles(keysym, code, true),
    {
        let plain = match &self.keymap {
            Some(k) => k.text(code),
            None => {
                let none = String::new();
                assert(none@ =~= Seq::empty());
                none
            },
        };
        let press = KeyPress::of(keysym, plain.as_str(), self.mods.shift);
        match (&self.app, &press) {
            (Some(app), Some(p)) => if !self.armed {
                None
            } else if p.is(&app.cycle.next) {
                Some(true)
            } else if p.is(&app.cycle.prev) {
                Some(false)
            } else {
                None
            },
            _ => None,
        }
    }

    fn intercept(&mut self, keysym: u32, code: u32, pressed: bool) -> (r: bool)
        ensures
            final(self)@ == old(self)@.keyed(keysym, code, pressed),
            r == !old(self)@.passes(keysym, code, pressed),
    {
        self.follow(keysym, pressed);
        if !pressed {
            return false;
        }
        let cycles = self.cycling(keysym, code);
        match &mut self.app {
            Some(app) => match cycles {
                Some(forward) => {
                    app.cycle(forward);
                    true
                },
                None => app.press_hint(code),
            },
            None => false,
        }
    }

    /// A key was pressed or released. While armed, the overlay's cycle keys move the highlight
    /// instead of reaching the UI, whose filter field would eat Tab. A tile hint is a physical key, so it is matched on the
    /// evdev code rather than on the keysym the layout derives from it; it picks straight
    /// away, and the keystroke stops here. What comes back is what the UI is told.
    pub fn key(&mut self, keysym: u32, code: u32, utf8: Option<&str>, pressed: bool) -> (r:
        Delivered)
        ensures
            final(self)@ == old(self)@.keyed(keysym, code, pressed),
            r.key == if old(self)@.passes(keysym, code, pressed) {
                ui_key(keysym)
            } else {
                None
            },
            match r.text {
                Some(t) => {
                    &&& old(self)@.passes(keysym, code, pressed)
                    &&& pressed && !final(self)@.mods.ctrl && !final(self)@.mods.alt
                    &&& utf8 matches Some(u) && typed(u@) && t@ == u@
                },
                None => !(old(self)@.passes(keysym, code, pressed) && pressed && !final(self)@.mods.ctrl && !final(self)@.mods.alt && (utf8 matches Some(u) && typed(u@))),
            },
    {
        let taken = self.intercept(keysym, code, pressed);
        if taken {
            return Delivered { key: None, text: None };
        }
        let text = match utf8 {
            Some(u) => if pressed && !self.mods.ctrl && !self.mods.alt && is_typed(u) {
                Some(String::from_str(u))
            } else {
                None
            },
            None => None,
        };
        Delivered { key: map_key(keysym), text }
    }

    /// The size of the surface's buffer.
    pub open spec fn buffer(&self) -> (int, int) {
        (self.width * self.scale, self.height * self.scale)
    }

    /// The compositor closed the surface.
    pub fn closed(&mut self)
        ensures
            final(self)@ == (Watch {
                app: match old(self)@.app {
                    Some(o) => Some(Overlay { closing: true, ..o }),
                    None => None,
                },
                ..old(self)@
            }),
    {
        if let Some(app) = &mut self.app {
            app.cancel();
        }
    }

    /// The compositor gave the surface a size; zero leaves it as it was. What comes back is
    /// the size of the buffer to draw, once there is one.
    pub fn configure(&mut self, w: u32, h: u32) -> (r: Option<(u32, u32)>)
        requires
            w * old(self).scale <= u32::MAX,
            h * old(self).scale <= u32::MAX,
            old(self).buffer().0 <= u32::MAX,
            old(self).buffer().1 <= u32::MAX,
        ensures
            final(self)@ == if w > 0 && h > 0 {
                Watch { width: w, height: h, ..old(self)@ }
            } else {
                old(self)@
            },
            match r {
                Some((bw, bh)) => final(self).width > 0 && (bw as int, bh as int) == final(self).buffer(),
                None => final(self).width == 0,
            },
    {
        if w > 0 && h > 0 {
            self.width = w;
            self.height = h;
        }
        if self.width == 0 {
            return None;
        }
        assert(0 <= self.width * self.scale && 0 <= self.height * self.scale)
            by (nonlinear_arith)
            requires
                0 <= self.width,
                0 <= self.height,
                0 <= self.scale,
        ;
        Some((self.width * self.scale, self.height * self.scale))
    }

    /// The output's scale changed; it is at least one. What comes back is the size of the
    /// buffer to draw, if there is one.
    pub fn scale_factor_changed(&mut self, factor: i32) -> (r: Option<(u32, u32)>)
        requires
            factor > 0 ==> old(self).width * factor <= u32::MAX && old(self).height * factor
                <= u32::MAX,
        ensures
            final(self)@ == (Watch {
                scale: if factor > 1 {
                    factor as u32
                } else {
                    1
                },
                ..old(self)@
            }),
            match r {
                Some((bw, bh)) => final(self).width > 0 && (bw as int, bh as int) == final(self).buffer(),
                None => final(self).width == 0,
            },
    {
        self.scale = if factor > 1 {
            factor as u32
        } else {
            1
        };
        if self.width == 0 {
            return None;
        }
        assert(0 <= self.width * self.scale && 0 <= self.height * self.scale)
            by (nonlinear_arith)
            requires
                0 <= self.width,
                0 <= self.height,
                0 <= self.scale,
        ;
        assert(self.scale == 1 ==> self.width * self.scale == self.width && self.height * self.scale
            == self.height) by (nonlinear_arith);
        Some((self.width * self.scale, self.height * self.scale))
    }
}

/// A reused host opens exactly like a fresh one: nothing an overlay left behind, but for the
/// seat's keymap and the surface's size, reaches the next.
pub proof fn a_reused_host_opens_like_a_fresh_one(used: Watch, fresh: Watch, app: Overlay)
    requires
        used.keymap == fresh.keymap,
        used.width == fresh.width,
        used.height == fresh.height,
        used.scale == fresh.scale,
    ensures
        used.begun(app) == fresh.begun(app),
{
}

/// Without hold-to-switch the modifiers never confirm: the overlay is as it was.
pub proof fn without_hold_nothing_confirms(w: Watch, mods: Mods, logo: bool)
    requires
        !w.hold,
        !w.awaiting_enter_modifiers,
    ensures
        w.modified(mods, logo).app == w.app,
        w.entered(Seq::empty()).awaiting_enter_modifiers == false,
{
}

/// The modifier that is held when the keyboard comes in arms the switcher and shows its
/// tiles, and nothing is confirmed yet.
pub proof fn a_held_modifier_arms(w: Watch, held: Seq<u32>)
    requires
        w.hold,
        !w.armed,
        !w.prev_held,
        w.app is Some,
        any_alt(held) || any_logo(held),
    ensures
        w.entered(held).armed,
        w.entered(held).app == Some(Overlay { revealed: true, ..w.app->0.now_armed() }),
{
}

/// Releasing every modifier the switcher was armed on confirms the highlighted source.
pub proof fn releasing_the_modifier_confirms(w: Watch, mods: Mods)
    requires
        w.hold,
        w.armed,
        w.prev_held,
        w.app is Some,
        !mods.alt,
    ensures
        w.modified(mods, false).app == Some(w.app->0.confirmed()),
        !w.modified(mods, false).prev_held,
{
}

/// A modifier held throughout confirms nothing.
pub proof fn holding_on_confirms_nothing(w: Watch, mods: Mods, logo: bool)
    requires
        w.hold,
        w.armed,
        (w.armed_alt && mods.alt) || (w.armed_logo && logo),
    ensures
        w.modified(mods, logo).app == w.app,
        w.modified(mods, logo).prev_held,
{
}

/// A tap that was released before the keyboard came in switches all the same.
pub proof fn a_quick_tap_confirms(w: Watch, mods: Mods)
    requires
        w.hold,
        !w.armed,
        !w.prev_held,
        w.app is Some,
        !mods.alt,
    ensures
        w.entered(Seq::empty()).modified(mods, false).app == Some(
            w.app->0.now_armed().confirmed(),
        ),
{
    let e = w.entered(Seq::empty());
    assert(!any_alt(Seq::empty()));
    assert(!any_logo(Seq::empty()));
    assert(e.app == w.app);
}

/// The keys that hold the switcher open, by their keysyms: Alt and Meta as one, Super as the
/// other.
pub proof fn modifiers_are_known_by_their_keysyms(k: u32, alt: bool, logo: bool)
    requires
        call_ensures(is_alt, (k,), alt),
        call_ensures(is_logo, (k,), logo),
    ensures
        alt <==> 0xffe7 <= k <= 0xffea,
        logo <==> 0xffeb <= k <= 0xffec,
{
}

/// The keys that the picker acts on, by their keysyms.
pub proof fn keys_are_known_by_their_keysyms(k: u32, r: Option<UiKey>)
    requires
        call_ensures(map_key, (k,), r),
    ensures
        r == Some(UiKey::Escape) <==> k == 0xff1b,
        r == Some(UiKey::Enter) <==> k == 0xff0d || k == 0xff8d,
        r == Some(UiKey::Tab) <==> k == 0xff09 || k == 0xfe20,
        r == Some(UiKey::Backspace) <==> k == 0xff08,
        r == Some(UiKey::Delete) <==> k == 0xffff,
        r == Some(UiKey::ArrowLeft) <==> k == 0xff51,
        r == Some(UiKey::ArrowUp) <==> k == 0xff52,
        r == Some(UiKey::ArrowRight) <==> k == 0xff53,
        r == Some(UiKey::ArrowDown) <==> k == 0xff54,
        r == Some(UiKey::Home) <==> k == 0xff50,
        r == Some(UiKey::End) <==> k == 0xff57,
        r == Some(UiKey::Space) <==> k == 0x20,
{
}

/// The buttons, by the codes of the kernel.
pub proof fn buttons_are_known_by_their_codes(code: u32, r: Option<Button>)
    requires
        call_ensures(map_button, (code,), r),
    ensures
        r == Some(Button::Primary) <==> code == 272,
        r == Some(Button::Secondary) <==> code == 273,
        r == Some(Button::Middle) <==> code == 274,
        r is None <==> code < 272 || code > 274,
{
}

/// Of two modifiers that the switcher was armed on, releasing one confirms nothing; the other
/// then does.
pub proof fn every_armed_modifier_must_be_released(w: Watch, mods: Mods)
    requires
        w.hold,
        w.armed,
        w.armed_alt,
        w.armed_logo,
        w.prev_held,
        !w.awaiting_enter_modifiers,
        w.app is Some,
        !mods.alt,
    ensures
        w.modified(mods, true).app == w.app,
        w.modified(mods, true).modified(mods, false).app == Some(w.app->0.confirmed()),
{
}

/// A modifier that was not held when the switcher was armed does not keep it open.
pub proof fn a_modifier_pressed_later_does_not_hold(w: Watch, mods: Mods)
    requires
        w.hold,
        w.armed,
        w.armed_alt,
        !w.armed_logo,
        w.prev_held,
        w.app is Some,
        !mods.alt,
    ensures
        w.modified(mods, true).app == Some(w.app->0.confirmed()),
{
}

/// Only the key that was pressed is followed: pressing another leaves the modifiers and what is
/// shown as they were, and passes on.
pub proof fn other_keys_pass(w: Watch, keysym: u32, code: u32)
    requires
        !(0xffe7 <= keysym <= 0xffec),
    ensures
        w.keyed(keysym, code, false) == w,
        w.passes(keysym, code, false),
{
}

/// An armed switcher goes on with the one key and back with the other, and neither is typed.
pub proof fn the_cycle_keys_cycle(w: Watch, keysym: u32, code: u32)
    requires
        w.armed,
        w.app is Some,
        !(0xffe7 <= keysym <= 0xffec),
    ensures
        ({
            let o = w.app->0;
            &&& w.press(keysym, code) == Some(o.cycle.0) ==> w.keyed(keysym, code, true).app
                == Some(o.cycled(true)) && !w.passes(keysym, code, true)
            &&& w.press(keysym, code) == Some(o.cycle.1) && o.cycle.0 != o.cycle.1 ==> w.keyed(
                keysym,
                code,
                true,
            ).app == Some(o.cycled(false)) && !w.passes(keysym, code, true)
        }),
{
}

/// Before the switcher is armed the cycle keys are keys like any other.
pub proof fn an_unarmed_switcher_does_not_cycle(w: Watch, keysym: u32, code: u32)
    requires
        !w.armed,
        w.app is Some,
        w.app->0.hinted(code) is None,
        !(0xffe7 <= keysym <= 0xffec),
    ensures
        w.keyed(keysym, code, true) == w,
        w.passes(keysym, code, true),
{
}

/// A tile's key picks the tile and is not typed; the key's release does nothing.
pub proof fn a_hint_key_picks_its_tile(w: Watch, keysym: u32, code: u32, i: int)
    requires
        !w.armed,
        w.app is Some,
        w.app->0.hinted(code) == Some(i),
        !(0xffe7 <= keysym <= 0xffec),
    ensures
        w.keyed(keysym, code, true).app matches Some(o) && o.out == Some(
            w.app->0.visible()[i].pick(),
        ) && o.closing,
        !w.passes(keysym, code, true),
        w.keyed(keysym, code, false) == w,
{
}

/// Text reaches the filter when a key is pressed, not when it is released, and not with Control
/// or Alt held down; control characters never do.
pub proof fn only_plain_text_is_typed(
    h: &mut Host,
    keysym: u32,
    code: u32,
    text: &str,
    pressed: bool,
    r: Delivered,
)
    requires
        call_ensures(Host::key, (h, keysym, code, Some(text), pressed), r),
        old(h)@.passes(keysym, code, pressed),
    ensures
        r.key == ui_key(keysym),
        r.text matches Some(t) ==> t@ == text@ && pressed && !final(h)@.mods.ctrl && !final(h)@.mods.alt,
        pressed && !final(h)@.mods.ctrl && !final(h)@.mods.alt && text@.len() > 0 && (forall|i: int|
            0 <= i < text@.len() ==> '\u{20}' <= #[trigger] text@[i] <= '\u{7e}') ==> r.text
            is Some,
        (exists|i: int| 0 <= i < text@.len() && #[trigger] text@[i] < '\u{20}') ==> r.text is None,
{
}

/// What is painted has as many pixels as the surface has points, times the scale, on each side.
pub proof fn the_buffer_has_a_scaled_size(h: &mut Host, w: u32, hh: u32, r: Option<(u32, u32)>)
    requires
        call_ensures(Host::configure, (h, w, hh), r),
        w > 0,
        hh > 0,
    ensures
        r matches Some((a, b)) && a == w * old(h).scale && b == hh * old(h).scale,
        final(h)@.width == w,
        final(h)@.height == hh,
{
}

/// A change of scale keeps the surface's size in points.
pub proof fn a_scale_keeps_the_size(h: &mut Host, factor: i32, r: Option<(u32, u32)>)
    requires
        call_ensures(Host::scale_factor_changed, (h, factor), r),
        factor >= 1,
        old(h).width > 0,
    ensures
        r matches Some((a, b)) && a == old(h).width * factor && b == old(h).height * factor,
        final(h)@.width == old(h)@.width,
        final(h)@.height == old(h)@.height,
{
}

/// It makes no difference whether the keymap comes before the overlay or after it.
pub proof fn the_keymap_may_come_late(early: Watch, app: Overlay, k: Keymap, h: &mut Host)
    requires
        call_ensures(Host::update_keymap, (h, k), ()),
        early.keymap is None,
        old(h)@ == early.begun(app),
    ensures
        final(h)@ == (Watch { keymap: Some(k), ..early }).begun(app),
{
}

/// An overlay begins with nothing held and nothing armed, and is held open only where it asks to
/// be.
pub proof fn an_overlay_begins_with_nothing_held(h: &mut Host, app: App)
    requires
        call_ensures(Host::begin, (h, app), ()),
    ensures
        final(h)@.hold == app@.hold,
        !final(h)@.armed && !final(h)@.alt_down && !final(h)@.logo_down && !final(h)@.prev_held,
        !final(h)@.mods.alt && !final(h)@.mods.ctrl && !final(h)@.mods.shift,
        final(h)@.app matches Some(o) && o.sources == app@.sources && o.closing == app@.closing
            && o.cycle == app@.cycle,
        final(h)@.width == old(h)@.width,
        final(h)@.scale == old(h)@.scale,
{
}

} // verus!
