//! Focus-aware capture helpers: "the active window" and "the current output".
//!
//! Wayland deliberately gives a regular client no way to query the global pointer
//! position or which surface/output has the focus — so we rely on the compositor's own
//! IPC: Sway, Hyprland and niri. cosmic-comp has no IPC socket, so it is asked over
//! Wayland instead, through `zcosmic_toplevel_info_v1`. Here is what their answers mean.

use crate::bytes::{holds_word, host_order, words, ByteOrder};
use crate::json::{json_document, read, trees, Json, Tree};
use crate::order::{goes_before, sort_positions, sorting_is_unique, sorts, there_is_a_sorted_order, SortKey};
use crate::region::Region;
use crate::text::{decimal, owned, push_decimal, same};
use crate::wl::{advertised, is_advertised};
use vstd::prelude::*;
use vstd::string::*;

verus! {

/// A window's identity + content geometry, for binding a region mirror to the window
/// under it (`app_id` + `title` match a toplevel; `rect` is its content area).
#[derive(Debug)]
pub struct WindowRef {
    /// The window's application id.
    pub app_id: String,
    /// The window title.
    pub title: String,
    /// The window's content area in the global logical space.
    pub rect: Region,
}

/// The windows, most recently focused first, by the toplevel's identifier.
#[derive(Debug)]
pub struct FocusOrder {
    /// The window with the focus right now, if any.
    pub focused: Option<String>,
    /// The other windows, most recently focused first.
    pub unfocused: Vec<String>,
}

/// What the strings spell.
pub open spec fn texts(v: Seq<String>) -> Seq<Seq<char>> {
    v.map_values(|s: String| s@)
}

impl View for FocusOrder {
    type V = (Option<Seq<char>>, Seq<Seq<char>>);

    open spec fn view(&self) -> (Option<Seq<char>>, Seq<Seq<char>>) {
        (
            match self.focused {
                Some(s) => Some(s@),
                None => None,
            },
            texts(self.unfocused@),
        )
    }
}

impl Default for FocusOrder {
    fn default() -> (r: Self)
        ensures
            r.focused is None,
            r.unfocused@.len() == 0,
    {
        FocusOrder { focused: None, unfocused: Vec::new() }
    }
}

impl FocusOrder {
    /// All windows, most recently focused first.
    pub open spec fn all(&self) -> Seq<Seq<char>> {
        match self@.0 {
            Some(f) => seq![f] + self@.1,
            None => self@.1,
        }
    }

    /// All windows, most recently focused first.
    pub fn windows(&self) -> (r: Vec<&str>)
        ensures
            r@.len() == self.all().len(),
            forall|i: int| 0 <= i < r@.len() ==> (#[trigger] r@[i])@ == self.all()[i],
    {
        let mut out: Vec<&str> = Vec::new();
        if let Some(f) = &self.focused {
            out.push(f.as_str());
        }
        let n: usize = out.len();
        for i in 0..self.unfocused.len()
            invariant
                n == if self.focused is Some {
                    1int
                } else {
                    0int
                },
                out@.len() == n + i,
                forall|j: int| 0 <= j < out@.len() ==> (#[trigger] out@[j])@ == self.all()[j],
        {
            out.push(self.unfocused[i].as_str());
            assert(self.all()[n + i] == self.unfocused@[i as int]@);
        }
        out
    }
}

/// `ids`, most recently focused first, the first of them holding the focus if `has_focus`.
pub open spec fn ranking(ids: Seq<Seq<char>>, has_focus: bool) -> (
    Option<Seq<char>>,
    Seq<Seq<char>>,
) {
    if has_focus && ids.len() > 0 {
        (Some(ids[0]), ids.skip(1))
    } else {
        (None, ids)
    }
}

/// The windows in this order, the first of them holding the focus if `has_focus`.
fn ranked(mut ids: Vec<String>, has_focus: bool) -> (r: FocusOrder)
    ensures
        r@ == ranking(texts(ids@), has_focus),
{
    let ghost all = ids@;
    if has_focus && ids.len() > 0 {
        let first = ids.remove(0);
        assert(texts(ids@) =~= texts(all).skip(1));
        FocusOrder { focused: Some(first), unfocused: ids }
    } else {
        FocusOrder { focused: None, unfocused: ids }
    }
}

/// Whichever window leads, listing them all gives the ranking back.
pub proof fn a_ranking_lists_every_window(order: FocusOrder, ids: Seq<Seq<char>>, has_focus: bool)
    requires
        order@ == ranking(ids, has_focus),
    ensures
        order.all() == ids,
{
    assert(order.all() =~= ids);
}

/// A compositor-specific source of focus information.
pub trait FocusBackend {
    /// Name of the focused output, if any.
    fn focused_output(&self) -> Option<String>;

    /// Logical rectangle of the active (focused) window, if any.
    fn active_window_rect(&self) -> Option<Region>;

    /// The window under the given global logical point, if any. Used to make a region
    /// mirror follow the window beneath it.
    fn window_at(&self, x: i32, y: i32) -> Option<WindowRef> {
        None
    }

    /// The compositor's window focus history.
    fn focus_order(&self) -> Option<FocusOrder> {
        None
    }

    /// The process behind each window, by the window's identifier.
    fn window_pids(&self) -> Option<Vec<(String, u32)>> {
        None
    }

    /// The windows the compositor keeps aside.
    fn scratchpad(&self) -> Option<Vec<String>> {
        None
    }

    /// Put a window aside.
    fn hide_window(&self, identifier: &str) -> Option<()> {
        None
    }

    /// Human-readable backend name, for error messages.
    fn name(&self) -> &'static str;
}

/// The compositors that can be asked.
#[derive(Clone, Copy, Debug, PartialEq, Eq, Structural)]
pub enum Compositor {
    Sway,
    Hyprland,
    Niri,
    Cosmic,
}

impl Compositor {
    /// Its name, for error messages.
    pub fn name(self) -> (r: &'static str)
        ensures
            r@ == match self {
                Compositor::Sway => "sway"@,
                Compositor::Hyprland => "Hyprland"@,
                Compositor::Niri => "niri"@,
                Compositor::Cosmic => "cosmic-comp"@,
            },
    {
        match self {
            Compositor::Sway => "sway",
            Compositor::Hyprland => "Hyprland",
            Compositor::Niri => "niri",
            Compositor::Cosmic => "cosmic-comp",
        }
    }
}

/// Pick a compositor to ask, from what the environment names: `$SWAYSOCK`,
/// `$HYPRLAND_INSTANCE_SIGNATURE`, `$NIRI_SOCKET`. `None` if no supported compositor
/// IPC is present.
///
/// COSMIC sets no variable of its own that a client can rely on, so that one is
/// detected by the protocol it answers on.
pub fn detect(sway: bool, hyprland: bool, niri: bool, cosmic: bool) -> (r: Option<Compositor>)
    ensures
        r == if sway {
            Some(Compositor::Sway)
        } else if hyprland {
            Some(Compositor::Hyprland)
        } else if niri {
            Some(Compositor::Niri)
        } else if cosmic {
            Some(Compositor::Cosmic)
        } else {
            None
        },
{
    if sway {
        Some(Compositor::Sway)
    } else if hyprland {
        Some(Compositor::Hyprland)
    } else if niri {
        Some(Compositor::Niri)
    } else if cosmic {
        Some(Compositor::Cosmic)
    } else {
        None
    }
}

/// Whether `(x, y)` falls inside a logical region.
pub fn contains(r: &Region, x: i32, y: i32) -> (inside: bool)
    ensures
        inside == r.holds(x as int, y as int),
{
    x >= r.x && (x as i64) < r.x as i64 + r.w as i64 && y >= r.y && (y as i64) < r.y as i64
        + r.h as i64
}

/// A rectangle as compositors send it, with a size that can be negative.
#[derive(Clone, Copy, Debug, PartialEq, Eq, Structural)]
pub struct Rect {
    pub x: i32,
    pub y: i32,
    pub width: i32,
    pub height: i32,
}

/// The region a rectangle covers; a negative size is none.
pub open spec fn region_of_rect(r: Rect) -> Region {
    Region {
        x: r.x,
        y: r.y,
        w: if r.width > 0 {
            r.width as u32
        } else {
            0
        },
        h: if r.height > 0 {
            r.height as u32
        } else {
            0
        },
    }
}

/// The region a rectangle covers; a negative size is none.
fn to_region(r: &Rect) -> (g: Region)
    ensures
        g == region_of_rect(*r),
{
    Region {
        x: r.x,
        y: r.y,
        w: if r.width > 0 {
            r.width as u32
        } else {
            0
        },
        h: if r.height > 0 {
            r.height as u32
        } else {
            0
        },
    }
}

/// A node of sway's tree, as far as it is read.
#[derive(Debug)]
pub struct SwayNode {
    /// What the node is called by its parent's focus list.
    pub id: i64,
    /// Its name; a window's title.
    pub name: Option<String>,
    /// Whether it is a container, tiled or floating, rather than a workspace or an output.
    pub is_container: bool,
    /// A Wayland window's application id.
    pub app_id: Option<String>,
    /// An X11 window's properties: its class, where it has one.
    pub window_properties: Option<Option<String>>,
    /// Where it lies.
    pub rect: Rect,
    /// Where its content lies within it; zero for nodes with no content offset.
    pub window_rect: Rect,
    /// Whether it is on screen, where sway says.
    pub visible: Option<bool>,
    /// Whether it holds the focus.
    pub focused: bool,
    /// Its children, tiled and floating alike, most recently focused first.
    pub focus: Vec<i64>,
    /// What the foreign-toplevel list calls it.
    pub foreign_toplevel_identifier: Option<String>,
    /// Its tiled children.
    pub nodes: Vec<SwayNode>,
    /// Its floating children.
    pub floating_nodes: Vec<SwayNode>,
}

impl SwayNode {
    /// A window, rather than a container, a workspace or an output.
    pub open spec fn is_window(self) -> bool {
        self.app_id is Some || self.window_properties is Some
    }

    /// The content's rectangle in global logical coordinates.
    pub open spec fn content(self) -> Region {
        let r = region_of_rect(self.rect);
        if self.window_rect.width > 0 && self.window_rect.height > 0 {
            Region {
                x: (r.x + self.window_rect.x) as i32,
                y: (r.y + self.window_rect.y) as i32,
                w: self.window_rect.width as u32,
                h: self.window_rect.height as u32,
            }
        } else {
            r
        }
    }

    /// What the window's application is called, by either of its two ways of saying so.
    pub open spec fn application(self) -> Seq<char> {
        match self.app_id {
            Some(a) => a@,
            None => match self.window_properties {
                Some(Some(class)) => class@,
                _ => Seq::empty(),
            },
        }
    }

    /// The content's position is within range.
    pub open spec fn in_range(self) -> bool {
        &&& i32::MIN <= self.rect.x + self.window_rect.x <= i32::MAX
        &&& i32::MIN <= self.rect.y + self.window_rect.y <= i32::MAX
    }

    /// The deepest window on screen under a point.
    pub open spec fn hit(self, x: int, y: int) -> Option<SwayNode>
        decreases self, 0int,
    {
        if self.visible == Some(false) {
            None
        } else {
            match hit_among(self.floating_nodes@, 0, x, y) {
                Some(w) => Some(w),
                None => match hit_among(self.nodes@, 0, x, y) {
                    Some(w) => Some(w),
                    None => if self.is_window() && region_of_rect(self.rect).holds(x, y) {
                        Some(self)
                    } else {
                        None
                    },
                },
            }
        }
    }
}

/// The deepest window on screen under a point, in the first of `children` from `k` on that
/// holds the point and has one.
pub open spec fn hit_among(children: Seq<SwayNode>, k: int, x: int, y: int) -> Option<SwayNode>
    decreases children, children.len() - k,
{
    if k < 0 || k >= children.len() {
        None
    } else {
        let found = if region_of_rect(children[k].rect).holds(x, y) {
            children[k].hit(x, y)
        } else {
            None
        };
        match found {
            Some(w) => Some(w),
            None => hit_among(children, k + 1, x, y),
        }
    }
}

/// The deepest window on screen under a point.
fn sway_hit<'a>(node: &'a SwayNode, x: i32, y: i32) -> (r: Option<&'a SwayNode>)
    ensures
        match r {
            Some(w) => node.hit(x as int, y as int) == Some(*w),
            None => node.hit(x as int, y as int) is None,
        },
    decreases node, 0int,
{
    // Skip anything not actually on screen — sway keeps the geometry of windows on
    // hidden workspaces (and tabbed/stacked-behind windows) in the tree, so without
    // this we'd match a window the point only "contains" on a workspace you can't see.
    if let Some(false) = node.visible {
        return None;
    }
    // Descend into children first so the innermost (leaf) window wins.
    if let Some(w) = sway_hit_among(&node.floating_nodes, 0, x, y) {
        return Some(w);
    }
    if let Some(w) = sway_hit_among(&node.nodes, 0, x, y) {
        return Some(w);
    }
    if sway_is_window(node) && contains(&rect_of(node), x, y) {
        return Some(node);
    }
    None
}

/// The deepest window on screen under a point, in the first of `children` from `k` on that
/// has one.
fn sway_hit_among<'a>(children: &'a Vec<SwayNode>, k: usize, x: i32, y: i32) -> (r: Option<
    &'a SwayNode,
>)
    ensures
        match r {
            Some(w) => hit_among(children@, k as int, x as int, y as int) == Some(*w),
            None => hit_among(children@, k as int, x as int, y as int) is None,
        },
    decreases children@, children@.len() - k,
{
    if k >= children.len() {
        return None;
    }
    let child = &children[k];
    if contains(&rect_of(child), x, y) {
        if let Some(w) = sway_hit(child, x, y) {
            return Some(w);
        }
    }
    sway_hit_among(children, k + 1, x, y)
}

/// Whether a sway node is a window (vs a container/workspace/output).
pub fn sway_is_window(node: &SwayNode) -> (r: bool)
    ensures
        r == node.is_window(),
{
    node.app_id.is_some() || node.window_properties.is_some()
}

/// Read a sway `rect` into a logical [`Region`].
pub fn rect_of(node: &SwayNode) -> (r: Region)
    ensures
        r == region_of_rect(node.rect),
{
    to_region(&node.rect)
}

/// A node's content rectangle in global logical coordinates: its `rect` shifted by the
/// `window_rect` (content offset within the node), so the crop lines up with what the
/// foreign-toplevel capture actually contains (no server-side borders).
pub fn sway_content_rect(node: &SwayNode) -> (r: Region)
    requires
        node.in_range(),
    ensures
        r == node.content(),
{
    let rect = rect_of(node);
    // Sway sends a zeroed `window_rect` for nodes with no content offset.
    let wr = &node.window_rect;
    if wr.width > 0 && wr.height > 0 {
        return Region {
            x: rect.x + wr.x,
            y: rect.y + wr.y,
            w: wr.width as u32,
            h: wr.height as u32,
        };
    }
    rect
}

/// The deepest window node whose `rect` contains the global logical point `(x, y)`.
pub fn sway_window_at(node: &SwayNode, x: i32, y: i32) -> (r: Option<WindowRef>)
    requires
        node.hit(x as int, y as int) matches Some(w) ==> w.in_range(),
    ensures
        match node.hit(x as int, y as int) {
            Some(w) => r matches Some(f) && f.app_id@ == w.application() && f.title@ == (
            match w.name {
                Some(n) => n@,
                None => Seq::empty(),
            }) && f.rect == w.content(),
            None => r is None,
        },
{
    match sway_hit(node, x, y) {
        None => None,
        Some(w) => {
            let app_id = match &w.app_id {
                Some(a) => a.clone(),
                None => match &w.window_properties {
                    Some(Some(class)) => class.clone(),
                    _ => String::new(),
                },
            };
            let title = match &w.name {
                Some(n) => n.clone(),
                None => String::new(),
            };
            Some(WindowRef { app_id, title, rect: sway_content_rect(w) })
        },
    }
}

/// A window found under a point is a window, holds the point, and is not hidden.
pub proof fn a_hit_is_a_window_under_the_point(node: SwayNode, x: int, y: int)
    ensures
        node.hit(x, y) matches Some(w) ==> w.is_window() && region_of_rect(w.rect).holds(x, y)
            && w.visible != Some(false),
    decreases node, 0int,
{
    if node.visible != Some(false) {
        hits_among_are_windows(node.floating_nodes@, 0, x, y);
        hits_among_are_windows(node.nodes@, 0, x, y);
    }
}

proof fn hits_among_are_windows(children: Seq<SwayNode>, k: int, x: int, y: int)
    requires
        0 <= k,
    ensures
        hit_among(children, k, x, y) matches Some(w) ==> w.is_window() && region_of_rect(
            w.rect,
        ).holds(x, y) && w.visible != Some(false),
    decreases children, children.len() - k,
{
    if k < children.len() {
        if region_of_rect(children[k].rect).holds(x, y) {
            a_hit_is_a_window_under_the_point(children[k], x, y);
        }
        hits_among_are_windows(children, k + 1, x, y);
    }
}

impl SwayNode {
    /// The first node with the focus: this one, or the first found below it.
    pub open spec fn holder(self) -> Option<SwayNode>
        decreases self, 0int,
    {
        if self.focused {
            Some(self)
        } else {
            match holder_among(self.nodes@, 0) {
                Some(n) => Some(n),
                None => holder_among(self.floating_nodes@, 0),
            }
        }
    }

    /// A window, or a container named like one: what can be the active window.
    pub open spec fn counts_as_active(self) -> bool {
        self.is_window() || (self.is_container && self.name is Some)
    }
}

/// The first node with the focus among `children` and below, from `k` on.
pub open spec fn holder_among(children: Seq<SwayNode>, k: int) -> Option<SwayNode>
    decreases children, children.len() - k,
{
    if k < 0 || k >= children.len() {
        None
    } else {
        match children[k].holder() {
            Some(n) => Some(n),
            None => holder_among(children, k + 1),
        }
    }
}

/// The single node with `focused: true` in a sway tree (the active container).
pub fn find_focused<'a>(node: &'a SwayNode) -> (r: Option<&'a SwayNode>)
    ensures
        match r {
            Some(n) => node.holder() == Some(*n),
            None => node.holder() is None,
        },
    decreases node, 0int,
{
    if node.focused {
        return Some(node);
    }
    if let Some(n) = find_focused_among(&node.nodes, 0) {
        return Some(n);
    }
    find_focused_among(&node.floating_nodes, 0)
}

/// The first node with the focus among `children` and below, from `k` on.
fn find_focused_among<'a>(children: &'a Vec<SwayNode>, k: usize) -> (r: Option<&'a SwayNode>)
    ensures
        match r {
            Some(n) => holder_among(children@, k as int) == Some(*n),
            None => holder_among(children@, k as int) is None,
        },
    decreases children@, children@.len() - k,
{
    if k >= children.len() {
        return None;
    }
    if let Some(n) = find_focused(&children[k]) {
        return Some(n);
    }
    find_focused_among(children, k + 1)
}

/// Logical rectangle of the active window of a sway tree, if any. Only windows have an
/// app-id / window properties; a focused empty workspace is not an "active window".
pub fn sway_active_window_rect(tree: &SwayNode) -> (r: Option<Region>)
    ensures
        r == match tree.holder() {
            Some(n) => if n.counts_as_active() {
                Some(region_of_rect(n.rect))
            } else {
                None
            },
            None => None,
        },
{
    match find_focused(tree) {
        Some(n) => if sway_is_window(n) || (n.is_container && n.name.is_some()) {
            Some(rect_of(n))
        } else {
            None
        },
        None => None,
    }
}

/// Where `id` first stands in a focus list, from `k` on; past every index where it does not.
pub open spec fn focus_rank(focus: Seq<i64>, id: i64, k: int) -> int
    decreases focus.len() - k,
{
    if k < 0 || k >= focus.len() {
        0x1_0000_0000_0000_0000
    } else if focus[k] == id {
        k
    } else {
        focus_rank(focus, id, k + 1)
    }
}

impl SwayNode {
    /// How many children there are, tiled and floating.
    pub open spec fn child_count(self) -> nat {
        self.nodes@.len() + self.floating_nodes@.len()
    }

    /// The child at `i`: the tiled ones first, then the floating ones.
    pub open spec fn child(self, i: int) -> SwayNode {
        if i < self.nodes@.len() {
            self.nodes@[i]
        } else {
            self.floating_nodes@[i - self.nodes@.len()]
        }
    }

    /// How recently each child was focused, 0 being the most recent.
    pub open spec fn child_ranks(self) -> Seq<i128> {
        Seq::new(
            self.child_count(),
            |i: int| focus_rank(self.focus@, self.child(i).id, 0) as i128,
        )
    }

    /// The children, most recently focused first; those the focus list does not name come
    /// last, in tree order.
    pub open spec fn child_order(self) -> Seq<usize> {
        choose|r: Seq<usize>| sorts(self.child_ranks(), r)
    }

    /// The windows at and below this node, most recently focused first.
    pub open spec fn recent(self) -> Seq<SwayNode>
        decreases self, 1int, 0int,
    {
        (if self.foreign_toplevel_identifier is Some {
            seq![self]
        } else {
            seq![]
        }) + self.recent_below(self.child_order(), self.child_order().len() as int)
    }

    /// The windows below the first `k` children in `order`.
    pub open spec fn recent_below(self, order: Seq<usize>, k: int) -> Seq<SwayNode>
        decreases self, 0int, k,
    {
        if k <= 0 {
            seq![]
        } else {
            let i = order[k - 1] as int;
            self.recent_below(order, k - 1) + if 0 <= i < self.nodes@.len() {
                self.nodes@[i].recent()
            } else if self.nodes@.len() <= i < self.child_count() {
                self.floating_nodes@[i - self.nodes@.len()].recent()
            } else {
                seq![]
            }
        }
    }
}

/// How recently a child was focused.
fn rank_in(focus: &Vec<i64>, id: i64) -> (r: i128)
    ensures
        r == focus_rank(focus@, id, 0),
        0 <= r <= 0x1_0000_0000_0000_0000,
{
    for i in 0..focus.len()
        invariant
            focus_rank(focus@, id, 0) == focus_rank(focus@, id, i as int),
    {
        if focus[i] == id {
            return i as i128;
        }
    }
    0x1_0000_0000_0000_0000
}

/// The windows at and below `node`, most recently focused first.
pub fn collect_mru_nodes<'a>(node: &'a SwayNode, out: &mut Vec<&'a SwayNode>)
    ensures
        final(out)@.len() == old(out)@.len() + node.recent().len(),
        forall|i: int| 0 <= i < old(out)@.len() ==> final(out)@[i] == old(out)@[i],
        forall|i: int|
            0 <= i < node.recent().len() ==> *(#[trigger] final(out)@[old(out)@.len() + i])
                == node.recent()[i],
    decreases node, 0int,
{
    let ghost start = out@.len();
    if node.foreign_toplevel_identifier.is_some() {
        out.push(node);
    }
    let ghost own = if node.foreign_toplevel_identifier is Some {
        seq![*node]
    } else {
        seq![]
    };
    // `focus` ranks tiled and floating children alike, most recently focused first.
    let n: usize = node.nodes.len();
    let m: usize = node.floating_nodes.len();
    let mut ranks: Vec<i128> = Vec::new();
    for i in 0..n
        invariant
            n == node.nodes@.len(),
            ranks@.len() == i,
            forall|j: int|
                0 <= j < i ==> #[trigger] ranks@[j] == focus_rank(
                    node.focus@,
                    node.child(j).id,
                    0,
                ),
    {
        ranks.push(rank_in(&node.focus, node.nodes[i].id));
    }
    for i in 0..m
        invariant
            n == node.nodes@.len(),
            m == node.floating_nodes@.len(),
            ranks@.len() == n + i,
            forall|j: int|
                0 <= j < n + i ==> #[trigger] ranks@[j] == focus_rank(
                    node.focus@,
                    node.child(j).id,
                    0,
                ),
    {
        ranks.push(rank_in(&node.focus, node.floating_nodes[i].id));
    }
    assert(ranks@ =~= node.child_ranks());
    let order = sort_positions(&ranks);
    proof {
        let c = node.child_order();
        assert(sorts(node.child_ranks(), order@));
        assert(sorts(node.child_ranks(), c));
        sorting_is_unique(node.child_ranks(), order@, c);
    }
    for k in 0..order.len()
        invariant
            n == node.nodes@.len(),
            m == node.floating_nodes@.len(),
            order@ == node.child_order(),
            sorts(node.child_ranks(), order@),
            start == old(out)@.len(),
            own == if node.foreign_toplevel_identifier is Some {
                seq![*node]
            } else {
                seq![]
            },
            out@.len() == start + own.len() + node.recent_below(order@, k as int).len(),
            forall|i: int| 0 <= i < start ==> out@[i] == old(out)@[i],
            forall|i: int|
                0 <= i < own.len() + node.recent_below(order@, k as int).len() ==> *(
                #[trigger] out@[start + i]) == (own + node.recent_below(order@, k as int))[i],
    {
        let i: usize = order[k];
        assert(0 <= i < n + m);
        let ghost before = out@;
        let ghost done = node.recent_below(order@, k as int);
        let child = if i < n {
            &node.nodes[i]
        } else {
            &node.floating_nodes[i - n]
        };
        proof {
            if i < n {
                assert(decreases_to!(*node => node.nodes@[i as int]));
            } else {
                assert(decreases_to!(*node => node.floating_nodes@[i - n]));
            }
        }
        collect_mru_nodes(child, out);
        let ghost next = node.recent_below(order@, k + 1);
        assert(next == done + child.recent());
        assert forall|j: int| 0 <= j < own.len() + next.len() implies *(
        #[trigger] out@[start + j]) == (own + next)[j] by {
            if j < own.len() + done.len() {
                assert(out@[start + j] == before[start + j]);
                assert((own + next)[j] == (own + done)[j]);
            } else {
                let q = j - own.len() - done.len();
                assert(start + j == before.len() + q);
                assert((own + next)[j] == child.recent()[q]);
            }
        }
    }
    assert(node.recent() == own + node.recent_below(order@, order@.len() as int));
}

/// What the toplevel list calls each of these windows, those it names.
pub open spec fn identifiers(windows: Seq<SwayNode>) -> Seq<Seq<char>>
    decreases windows.len(),
{
    if windows.len() == 0 {
        seq![]
    } else {
        let rest = identifiers(windows.drop_last());
        match windows.last().foreign_toplevel_identifier {
            Some(id) => rest.push(id@),
            None => rest,
        }
    }
}

/// The windows of a sway tree, most recently focused first. The first of them counts as
/// focused only where sway says so.
pub fn sway_focus_order(root: &SwayNode) -> (r: FocusOrder)
    ensures
        r@ == ranking(
            identifiers(root.recent()),
            root.recent().len() > 0 && root.recent()[0].focused,
        ),
{
    let mut windows: Vec<&SwayNode> = Vec::new();
    collect_mru_nodes(root, &mut windows);
    let ghost all = root.recent();
    assert forall|i: int| 0 <= i < all.len() implies *(#[trigger] windows@[i]) == all[i] by {
        assert(windows@[0 + i] == windows@[i]);
    }
    let has_focus = windows.len() > 0 && windows[0].focused;
    let mut ids: Vec<String> = Vec::new();
    for i in 0..windows.len()
        invariant
            all == root.recent(),
            windows@.len() == all.len(),
            forall|j: int| 0 <= j < all.len() ==> *(#[trigger] windows@[j]) == all[j],
            texts(ids@) == identifiers(all.take(i as int)),
    {
        assert(all.take(i + 1).drop_last() =~= all.take(i as int));
        assert(*windows@[i as int] == all[i as int]);
        if let Some(id) = &windows[i].foreign_toplevel_identifier {
            let ghost before = ids@;
            ids.push(id.clone());
            assert(texts(ids@) =~= texts(before).push(id@));
        }
    }
    assert(all.take(all.len() as int) =~= all);
    ranked(ids, has_focus)
}

/// Pick the focused output's name from sway's outputs.
pub fn sway_focused_output(outputs: &Vec<(String, bool)>) -> (r: Option<String>)
    ensures
        match first_focused(outputs@, 0) {
            Some(i) => r matches Some(n) && n@ == outputs@[i].0@,
            None => r is None,
        },
{
    for i in 0..outputs.len()
        invariant
            first_focused(outputs@, 0) == first_focused(outputs@, i as int),
    {
        if outputs[i].1 {
            return Some(outputs[i].0.clone());
        }
    }
    None
}

/// Where the first focused of these stands, from `k` on.
pub open spec fn first_focused(outputs: Seq<(String, bool)>, k: int) -> Option<int>
    decreases outputs.len() - k,
{
    if k < 0 || k >= outputs.len() {
        None
    } else if outputs[k].1 {
        Some(k)
    } else {
        first_focused(outputs, k + 1)
    }
}

/// The first monitor, from `k` on, that says it is focused.
pub open spec fn focused_monitor(monitors: Seq<Tree>, k: int) -> Option<Tree>
    decreases monitors.len() - k,
{
    if k < 0 || k >= monitors.len() {
        None
    } else {
        let says = match monitors[k].member("focused"@) {
            Some(f) => f.truth() == Some(true),
            None => false,
        };
        if says {
            Some(monitors[k])
        } else {
            focused_monitor(monitors, k + 1)
        }
    }
}

/// The text of a member.
pub open spec fn member_text(j: Tree, name: Seq<char>) -> Option<Seq<char>> {
    match j.member(name) {
        Some(v) => v.text(),
        None => None,
    }
}

/// The text of a member.
fn text_member<'a>(j: &'a Json, name: &str) -> (r: Option<&'a str>)
    ensures
        match r {
            Some(s) => member_text(j@, name@) == Some(s@),
            None => member_text(j@, name@) is None,
        },
{
    match j.get(name) {
        Some(v) => v.as_str(),
        None => None,
    }
}

/// The name of the focused monitor, in a list of monitors.
pub open spec fn focused_output_in(monitors: Tree) -> Option<Seq<char>> {
    match monitors.list() {
        Some(list) => match focused_monitor(list, 0) {
            Some(m) => member_text(m, "name"@),
            None => None,
        },
        None => None,
    }
}

/// Pick the focused monitor's name from `hyprctl -j monitors` (an array of monitors,
/// one with `"focused": true`).
pub fn hypr_focused_output(monitors: &Json) -> (r: Option<String>)
    ensures
        owned(r) == focused_output_in(monitors@),
{
    let list = match monitors.as_array() {
        Some(l) => l,
        None => {
            return None;
        },
    };
    for i in 0..list.len()
        invariant
            monitors@.list() == Some(trees(list@)),
            focused_monitor(trees(list@), 0) == focused_monitor(trees(list@), i as int),
    {
        assert(trees(list@)[i as int] == list@[i as int]@);
        let m = &list[i];
        let says = match m.get("focused") {
            Some(f) => match f.as_bool() {
                Some(b) => b,
                None => false,
            },
            None => false,
        };
        if says {
            return match text_member(m, "name") {
                Some(n) => Some(n.to_owned()),
                None => None,
            };
        }
    }
    None
}

/// The integer at `i` of the list that is the member `name`.
pub open spec fn member_integer(j: Tree, name: Seq<char>, i: int) -> Option<i64> {
    match j.member(name) {
        Some(v) => match v.list() {
            Some(l) => if 0 <= i < l.len() {
                l[i].integer()
            } else {
                None
            },
            None => None,
        },
        None => None,
    }
}

/// The integer at `i` of the list that is the member `name`.
fn integer_in(j: &Json, name: &str, i: usize) -> (r: Option<i64>)
    ensures
        r == member_integer(j@, name@, i as int),
{
    match j.get(name) {
        Some(v) => match v.as_array() {
            Some(l) => if i < l.len() {
                l[i].as_i64()
            } else {
                None
            },
            None => None,
        },
        None => None,
    }
}

/// The rectangle of the active window, in what is said of it.
pub open spec fn active_rect_in(w: Tree) -> Option<Region> {
    match (
        member_integer(w, "at"@, 0),
        member_integer(w, "at"@, 1),
        member_integer(w, "size"@, 0),
        member_integer(w, "size"@, 1),
    ) {
        (Some(x), Some(y), Some(w), Some(h)) => Some(
            Region { x: x as i32, y: y as i32, w: w as u32, h: h as u32 },
        ),
        _ => None,
    }
}

/// Read the active window's rectangle from `hyprctl -j activewindow`: `at: [x, y]`
/// and `size: [w, h]` in global logical coordinates. An empty object (`{}`) — nothing
/// focused — yields `None`. Numbers beyond 32 bits keep their low 32 bits.
pub fn hypr_active_window_rect(w: &Json) -> (r: Option<Region>)
    ensures
        r == active_rect_in(w@),
{
    match (
        integer_in(w, "at", 0),
        integer_in(w, "at", 1),
        integer_in(w, "size", 0),
        integer_in(w, "size", 1),
    ) {
        (Some(x), Some(y), Some(w), Some(h)) => Some(
            Region { x: x as i32, y: y as i32, w: w as u32, h: h as u32 },
        ),
        _ => None,
    }
}

/// A window as Hyprland lists it: its place in the focus history, what the toplevel list
/// calls it, and its address.
pub type HyprRow = (u64, Seq<char>, Option<Seq<char>>);

/// What `hyprctl -j clients` says of a window, where it says enough.
pub open spec fn hypr_row(c: Tree) -> Option<HyprRow> {
    match (c.member("focusHistoryID"@), member_text(c, "stableId"@)) {
        (Some(rank), Some(id)) => match rank.natural() {
            Some(n) => Some((n, id, member_text(c, "address"@))),
            None => None,
        },
        _ => None,
    }
}

/// Those of the first `n` clients Hyprland says enough of.
pub open spec fn hypr_rows(clients: Seq<Tree>, n: int) -> Seq<HyprRow>
    decreases n,
{
    if n <= 0 {
        seq![]
    } else {
        let rest = hypr_rows(clients, n - 1);
        match hypr_row(clients[n - 1]) {
            Some(row) => rest.push(row),
            None => rest,
        }
    }
}

/// The focus history's numbers.
pub open spec fn hypr_ranks(rows: Seq<HyprRow>) -> Seq<i128> {
    rows.map_values(|r: HyprRow| r.0 as i128)
}

/// `r` is the focus order of these windows, with `active` the address of the focused one.
pub open spec fn hypr_ordered(
    rows: Seq<HyprRow>,
    active: Option<Seq<char>>,
    r: FocusOrder,
) -> bool {
    exists|o: Seq<usize>| #[trigger]
        sorts(hypr_ranks(rows), o) && r@ == ranking(
            Seq::new(o.len(), |i: int| rows[o[i] as int].1),
            o.len() > 0 && rows[o[0] as int].2 is Some && rows[o[0] as int].2 == active,
        )
}

/// An owned row, as a value.
pub open spec fn row_view(row: (u64, String, Option<String>)) -> HyprRow {
    (
        row.0,
        row.1@,
        match row.2 {
            Some(a) => Some(a@),
            None => None,
        },
    )
}

/// What `hyprctl -j clients` says of a window, where it says enough.
fn read_hypr_row(c: &Json) -> (r: Option<(u64, String, Option<String>)>)
    ensures
        match r {
            Some(row) => hypr_row(c@) == Some(row_view(row)),
            None => hypr_row(c@) is None,
        },
{
    let rank = match c.get("focusHistoryID") {
        Some(v) => v.as_u64(),
        None => None,
    };
    match (rank, text_member(c, "stableId")) {
        (Some(n), Some(id)) => {
            let address = match text_member(c, "address") {
                Some(a) => Some(a.to_owned()),
                None => None,
            };
            Some((n, id.to_owned(), address))
        },
        _ => None,
    }
}

/// `r` is the focus order of a list of clients, with `active` the active window.
pub open spec fn hypr_order_in(clients: Tree, active: Tree, r: Option<FocusOrder>) -> bool {
    match clients.list() {
        None => r is None,
        Some(list) => r matches Some(o) && hypr_ordered(
            hypr_rows(list, list.len() as int),
            member_text(active, "address"@),
            o,
        ),
    }
}

/// Rank the windows of `hyprctl -j clients` by Hyprland's own focus history.
///
/// `focusHistoryID` ranks every mapped window, `0` being the one focused most
/// recently, and `stableId` is exactly the `ext-foreign-toplevel-list-v1`
/// identifier — so, unlike the announcement order of that list, it also tells
/// apart two windows sharing an app id and a title.
///
/// `active` is `hyprctl -j activewindow`, `{}` when nothing holds the focus: the
/// head of the history counts as focused only when it is that window, since the
/// history keeps ranking windows after the focus has left them all.
pub fn hypr_focus_order(clients: &Json, active: &Json) -> (r: Option<FocusOrder>)
    ensures
        hypr_order_in(clients@, active@, r),
{
    let list = match clients.as_array() {
        Some(l) => l,
        None => {
            return None;
        },
    };
    let mut rows: Vec<(u64, String, Option<String>)> = Vec::new();
    let mut ranks: Vec<i128> = Vec::new();
    for i in 0..list.len()
        invariant
            rows@.len() == hypr_rows(trees(list@), i as int).len(),
            ranks@ == hypr_ranks(hypr_rows(trees(list@), i as int)),
            forall|j: int|
                0 <= j < rows@.len() ==> row_view(#[trigger] rows@[j]) == hypr_rows(
                    trees(list@),
                    i as int,
                )[j],
    {
        assert(trees(list@)[i as int] == list@[i as int]@);
        if let Some(row) = read_hypr_row(&list[i]) {
            ranks.push(row.0 as i128);
            rows.push(row);
            assert(ranks@ =~= hypr_ranks(hypr_rows(trees(list@), i + 1)));
        }
    }
    let ghost all = hypr_rows(trees(list@), list@.len() as int);
    let order = sort_positions(&ranks);
    let active_address = text_member(active, "address");
    let has_focus = if order.len() > 0 {
        match (&rows[order[0]].2, active_address) {
            (Some(a), Some(b)) => same(a.as_str(), b),
            _ => false,
        }
    } else {
        false
    };
    let mut ids: Vec<String> = Vec::new();
    let ghost want = Seq::new(order@.len(), |i: int| all[order@[i] as int].1);
    for k in 0..order.len()
        invariant
            order@.len() == rows@.len(),
            rows@.len() == all.len(),
            forall|j: int| 0 <= j < order@.len() ==> 0 <= #[trigger] order@[j] < rows@.len(),
            forall|j: int| 0 <= j < rows@.len() ==> row_view(#[trigger] rows@[j]) == all[j],
            want == Seq::new(order@.len(), |i: int| all[order@[i] as int].1),
            ids@.len() == k,
            forall|j: int| 0 <= j < k ==> (#[trigger] ids@[j])@ == want[j],
    {
        let i: usize = order[k];
        assert(row_view(rows@[i as int]) == all[i as int]);
        ids.push(rows[i].1.clone());
    }
    assert(texts(ids@) =~= want);
    assert(has_focus == (order@.len() > 0 && all[order@[0] as int].2 is Some
        && all[order@[0] as int].2 == member_text(active@, "address"@))) by {
        if order@.len() > 0 {
            assert(row_view(rows@[order@[0] as int]) == all[order@[0] as int]);
        }
    }
    Some(ranked(ids, has_focus))
}

/// One entry of `niri msg --json windows`, reduced to what ranks it.
#[derive(Clone, Copy, Debug)]
pub struct NiriWindow {
    /// `focus_timestamp`, as a `(secs, nanos)` pair; `None` when the window has
    /// never been focused since the compositor started.
    pub stamp: Option<(u64, u64)>,
    /// The window `id`, whose decimal form is the ext-foreign-toplevel identifier.
    pub id: u64,
    /// Whether it holds the focus.
    pub focused: bool,
}

/// Newest first, and the windows never focused at the end.
impl SortKey for NiriWindow {
    open spec fn before(&self, other: &Self) -> bool {
        match (self.stamp, other.stamp) {
            (Some((s, n)), Some((t, m))) => s > t || (s == t && n > m),
            (Some(_), None) => true,
            _ => false,
        }
    }

    proof fn is_an_order(a: Self, b: Self, c: Self) {
    }

    fn comes_before(&self, other: &Self) -> (r: bool) {
        match (self.stamp, other.stamp) {
            (Some((s, n)), Some((t, m))) => s > t || (s == t && n > m),
            (Some(_), None) => true,
            _ => false,
        }
    }
}

/// The natural number that is a member.
pub open spec fn member_natural(j: Tree, name: Seq<char>) -> Option<u64> {
    match j.member(name) {
        Some(v) => v.natural(),
        None => None,
    }
}

/// The natural number that is a member.
fn natural_member(j: &Json, name: &str) -> (r: Option<u64>)
    ensures
        r == member_natural(j@, name@),
{
    match j.get(name) {
        Some(v) => v.as_u64(),
        None => None,
    }
}

/// When niri says a window was last focused.
pub open spec fn niri_stamp(w: Tree) -> Option<(u64, u64)> {
    match w.member("focus_timestamp"@) {
        Some(t) => match (member_natural(t, "secs"@), member_natural(t, "nanos"@)) {
            (Some(s), Some(n)) => Some((s, n)),
            _ => None,
        },
        None => None,
    }
}

/// What `niri msg --json windows` says of a window, where it says enough.
pub open spec fn niri_window(w: Tree) -> Option<NiriWindow> {
    match (member_natural(w, "id"@), w.member("is_focused"@)) {
        (Some(id), Some(f)) => match f.truth() {
            Some(focused) => Some(NiriWindow { stamp: niri_stamp(w), id, focused }),
            None => None,
        },
        _ => None,
    }
}

/// What `niri msg --json windows` says of a window, where it says enough.
fn read_niri_window(w: &Json) -> (r: Option<NiriWindow>)
    ensures
        r == niri_window(w@),
{
    let stamp = match w.get("focus_timestamp") {
        Some(t) => match (natural_member(t, "secs"), natural_member(t, "nanos")) {
            (Some(s), Some(n)) => Some((s, n)),
            _ => None,
        },
        None => None,
    };
    match (natural_member(w, "id"), w.get("is_focused")) {
        (Some(id), Some(f)) => match f.as_bool() {
            Some(focused) => Some(NiriWindow { stamp, id, focused }),
            None => None,
        },
        _ => None,
    }
}

/// Those of the first `n` windows niri says enough of.
pub open spec fn niri_windows(list: Seq<Tree>, n: int) -> Seq<NiriWindow>
    decreases n,
{
    if n <= 0 {
        seq![]
    } else {
        let rest = niri_windows(list, n - 1);
        match niri_window(list[n - 1]) {
            Some(w) => rest.push(w),
            None => rest,
        }
    }
}

/// `r` is the focus order of these windows.
pub open spec fn niri_ordered(windows: Seq<NiriWindow>, r: FocusOrder) -> bool {
    exists|o: Seq<usize>| #[trigger]
        sorts(windows, o) && r@ == ranking(
            Seq::new(o.len(), |i: int| decimal(windows[o[i] as int].id as nat)),
            o.len() > 0 && windows[o[0] as int].focused,
        )
}

/// A window niri never saw focused goes after every window it did.
pub proof fn a_window_never_focused_goes_last(
    windows: Seq<NiriWindow>,
    order: Seq<usize>,
    a: int,
    b: int,
)
    requires
        sorts(windows, order),
        0 <= a < b < order.len(),
        windows[order[a] as int].stamp is None,
    ensures
        windows[order[b] as int].stamp is None,
{
    assert(goes_before(windows, order[a] as int, order[b] as int));
}

/// `r` is the focus order of a list of windows.
pub open spec fn niri_order_in(windows: Tree, r: Option<FocusOrder>) -> bool {
    match windows.list() {
        None => r is None,
        Some(list) => r matches Some(o) && niri_ordered(
            niri_windows(list, list.len() as int),
            o,
        ),
    }
}

/// Rank the windows of `niri msg --json windows` by niri's own focus history.
///
/// `focus_timestamp` is an object (`{"secs": …, "nanos": …}`, monotonic since the
/// compositor started), not a scalar, so it is compared as a pair; a window never
/// focused since then simply has none, and goes after every window that has one.
/// The window `id`, in decimal, is the `ext-foreign-toplevel-list-v1` identifier —
/// niri announces that list in neither creation nor focus order, so correlating by
/// position would be wrong.
pub fn niri_focus_order(windows: &Json) -> (r: Option<FocusOrder>)
    ensures
        niri_order_in(windows@, r),
{
    let list = match windows.as_array() {
        Some(l) => l,
        None => {
            return None;
        },
    };
    let mut rows: Vec<NiriWindow> = Vec::new();
    for i in 0..list.len()
        invariant
            rows@ == niri_windows(trees(list@), i as int),
    {
        assert(trees(list@)[i as int] == list@[i as int]@);
        if let Some(w) = read_niri_window(&list[i]) {
            rows.push(w);
        }
    }
    let order = sort_positions(&rows);
    let has_focus = order.len() > 0 && rows[order[0]].focused;
    let mut ids: Vec<String> = Vec::new();
    let ghost want = Seq::new(order@.len(), |i: int| decimal(rows@[order@[i] as int].id as nat));
    for k in 0..order.len()
        invariant
            order@.len() == rows@.len(),
            forall|j: int| 0 <= j < order@.len() ==> 0 <= #[trigger] order@[j] < rows@.len(),
            want == Seq::new(
                order@.len(),
                |i: int| decimal(rows@[order@[i] as int].id as nat),
            ),
            ids@.len() == k,
            forall|j: int| 0 <= j < k ==> (#[trigger] ids@[j])@ == want[j],
    {
        let mut id = String::new();
        push_decimal(&mut id, rows[order[k]].id);
        assert(id@ =~= want[k as int]);
        ids.push(id);
    }
    assert(texts(ids@) =~= want);
    Some(ranked(ids, has_focus))
}

/// Pick the focused output's name from `niri msg --json focused-output` (the Output
/// object, or `null` when none).
pub fn niri_focused_output(o: &Json) -> (r: Option<String>)
    ensures
        owned(r) == member_text(o@, "name"@),
{
    match text_member(o, "name") {
        Some(n) => Some(n.to_owned()),
        None => None,
    }
}

/// What a command left behind.
#[derive(Debug)]
pub struct Ran {
    /// It exited with success.
    pub success: bool,
    /// What it printed.
    pub stdout: Vec<u8>,
}

/// What a command answered: the document it printed, if it could be run, succeeded and
/// printed one.
pub open spec fn answer(ran: Option<Ran>) -> Option<Tree> {
    match ran {
        Some(out) => if out.success {
            json_document(out.stdout@)
        } else {
            None
        },
        None => None,
    }
}

/// What a compositor's own command (`hyprctl -j`, `niri msg --json`) answered; `ran` is
/// `None` where it could not be run.
pub fn query(ran: Option<Ran>) -> (r: Option<Json>)
    ensures
        match r {
            Some(j) => answer(ran) == Some(j@),
            None => answer(ran) is None,
        },
{
    match ran {
        Some(out) => if out.success {
            read(out.stdout.as_slice())
        } else {
            None
        },
        None => None,
    }
}

/// Hyprland's focused output, from what `hyprctl -j monitors` left behind.
pub fn hyprland_focused_output(monitors: Option<Ran>) -> (r: Option<String>)
    ensures
        owned(r) == match answer(monitors) {
            Some(m) => focused_output_in(m),
            None => None,
        },
{
    match query(monitors) {
        Some(m) => hypr_focused_output(&m),
        None => None,
    }
}

/// Where Hyprland's active window is, from what `hyprctl -j activewindow` left behind.
pub fn hyprland_active_window_rect(activewindow: Option<Ran>) -> (r: Option<Region>)
    ensures
        r == match answer(activewindow) {
            Some(w) => active_rect_in(w),
            None => None,
        },
{
    match query(activewindow) {
        Some(w) => hypr_active_window_rect(&w),
        None => None,
    }
}

/// Hyprland's focus order, from what `hyprctl -j clients` and `hyprctl -j activewindow` left
/// behind. A missing `activewindow` only costs the focused window, so it does not sink the
/// whole history.
pub fn hyprland_focus_order(clients: Option<Ran>, activewindow: Option<Ran>) -> (r: Option<
    FocusOrder,
>)
    ensures
        match answer(clients) {
            Some(c) => hypr_order_in(
                c,
                match answer(activewindow) {
                    Some(a) => a,
                    None => Tree::Null,
                },
                r,
            ),
            None => r is None,
        },
{
    let active = match query(activewindow) {
        Some(a) => a,
        None => Json::Null,
    };
    match query(clients) {
        Some(c) => hypr_focus_order(&c, &active),
        None => None,
    }
}

/// niri's focused output, from what `niri msg --json focused-output` left behind.
pub fn niri_output(focused_output: Option<Ran>) -> (r: Option<String>)
    ensures
        owned(r) == match answer(focused_output) {
            Some(o) => member_text(o, "name"@),
            None => None,
        },
{
    match query(focused_output) {
        Some(o) => niri_focused_output(&o),
        None => None,
    }
}

/// niri's focus order, from what `niri msg --json windows` left behind.
pub fn niri_order(windows: Option<Ran>) -> (r: Option<FocusOrder>)
    ensures
        match answer(windows) {
            Some(w) => niri_order_in(w, r),
            None => r is None,
        },
{
    match query(windows) {
        Some(w) => niri_focus_order(&w),
        None => None,
    }
}

/// Whether the compositor advertises `zcosmic_toplevel_info_v1` at a version that can
/// name our windows: `get_cosmic_toplevel` arrived in version 2, and without it the
/// COSMIC toplevels cannot be tied to `ext-foreign-toplevel-list-v1` at all.
pub fn cosmic_toplevel_info_available(globals: &[(String, u32)]) -> (r: bool)
    ensures
        r == advertised(globals@, "zcosmic_toplevel_info_v1"@, 2),
{
    is_advertised(globals, "zcosmic_toplevel_info_v1", 2)
}

/// One window of cosmic-comp, reduced to what is read from it.
#[derive(Debug)]
pub struct CosmicWindow {
    /// Whether the compositor reports the window as `activated`.
    pub activated: bool,
    /// Whether the window's initial `state` event has arrived. cosmic-comp does not
    /// answer `get_cosmic_toplevel` with the window's properties: it sends them from
    /// its own refresh tick, so a snapshot has to wait for them.
    pub described: bool,
    /// The outputs the window is visible on, in the order it entered them. A window
    /// can straddle two; the focused output is the first, since nothing in the
    /// protocol says which one holds the focus.
    pub outputs: Vec<String>,
    /// The window's rectangle, in the global logical space.
    pub rect: Option<Region>,
}

/// Where the first activated window stands, from `k` on.
pub open spec fn first_active(windows: Seq<CosmicWindow>, k: int) -> Option<int>
    decreases windows.len() - k,
{
    if k < 0 || k >= windows.len() {
        None
    } else if windows[k].activated {
        Some(k)
    } else {
        first_active(windows, k + 1)
    }
}

/// The window holding the focus. A multi-seat compositor can activate one window per
/// seat; the first is as good a choice as any, since a client cannot tell which seat
/// is "ours".
pub fn cosmic_active(windows: &[CosmicWindow]) -> (r: Option<&CosmicWindow>)
    ensures
        match first_active(windows@, 0) {
            Some(i) => r matches Some(w) && *w == windows@[i],
            None => r is None,
        },
{
    for i in 0..windows.len()
        invariant
            first_active(windows@, 0) == first_active(windows@, i as int),
    {
        if windows[i].activated {
            return Some(&windows[i]);
        }
    }
    None
}

/// A state array holds `activated`.
pub open spec fn cosmic_activated_in(states: Seq<u8>, order: ByteOrder) -> bool {
    words(states, 4, order).contains(2)
}

/// Whether a `zcosmic_toplevel_handle_v1.state` array contains `activated`, in this byte
/// order. The array is a raw sequence of 32-bit enum values; a truncated last one is
/// ignored.
pub fn cosmic_is_activated_in(states: &[u8], order: ByteOrder) -> (r: bool)
    ensures
        r == cosmic_activated_in(states@, order),
{
    holds_word(states, 2, order)
}

/// Whether a `zcosmic_toplevel_handle_v1.state` array contains `activated`, in the host
/// byte order.
pub fn cosmic_is_activated(states: &[u8]) -> (r: bool)
    ensures
        r == cosmic_activated_in(states@, ByteOrder::Little) || r == cosmic_activated_in(
            states@,
            ByteOrder::Big,
        ),
        cosmic_activated_in(states@, ByteOrder::Little) == cosmic_activated_in(
            states@,
            ByteOrder::Big,
        ) ==> r == cosmic_activated_in(states@, ByteOrder::Big),
{
    cosmic_is_activated_in(states, host_order())
}

/// A `zcosmic_toplevel_handle_v1.geometry` rectangle as a [`Region`].
///
/// The protocol describes the position as "relative to the provided output", but
/// cosmic-comp sends the window's rectangle in its global logical space — the space
/// `xdg-output` places outputs in — and repeats the same values for every output the
/// window overlaps.
pub fn cosmic_rect(x: i32, y: i32, width: i32, height: i32) -> (r: Region)
    ensures
        r == region_of_rect(Rect { x, y, width, height }),
{
    to_region(&Rect { x, y, width, height })
}

/// The windows cosmic-comp describes, and the outputs they sit on.
#[derive(Debug)]
pub struct CosmicSnapshot {
    /// The windows.
    pub windows: Vec<CosmicWindow>,
    /// The COSMIC extension object of each window, in `windows` order.
    pub cosmic_handles: Vec<u64>,
    /// Every `wl_output` and its connector name, empty until told.
    pub outputs: Vec<(u64, String)>,
}

/// What cosmic-comp says of a window.
#[derive(Clone, Copy, Debug, PartialEq, Eq, Structural)]
pub enum CosmicEvent {
    /// Its state; whether `activated` is in it.
    State { activated: bool },
    /// It is visible on this output from now on.
    OutputEnter(u64),
    /// It is not visible on this output any more.
    OutputLeave(u64),
    /// Its place.
    Geometry(Rect),
    Other,
}

/// Where `handle` first stands, from `k` on.
pub open spec fn handle_position(v: Seq<u64>, handle: u64, k: int) -> Option<int>
    decreases v.len() - k,
{
    if k < 0 || k >= v.len() {
        None
    } else if v[k] == handle {
        Some(k)
    } else {
        handle_position(v, handle, k + 1)
    }
}

/// Where this output first stands, from `k` on.
pub open spec fn cosmic_output(v: Seq<(u64, String)>, output: u64, k: int) -> Option<int>
    decreases v.len() - k,
{
    if k < 0 || k >= v.len() {
        None
    } else if v[k].0 == output {
        Some(k)
    } else {
        cosmic_output(v, output, k + 1)
    }
}

/// Not having this name.
pub open spec fn not_named(name: Seq<char>) -> spec_fn(Seq<char>) -> bool {
    |o: Seq<char>| o != name
}

impl CosmicSnapshot {
    /// The window whose COSMIC object is `handle`.
    pub open spec fn window_at(&self, handle: u64) -> Option<int> {
        match handle_position(self.cosmic_handles@, handle, 0) {
            Some(i) => if i < self.windows@.len() {
                Some(i)
            } else {
                None
            },
            None => None,
        }
    }

    /// The name of an output, once it is known.
    pub open spec fn name_of(&self, output: u64) -> Option<Seq<char>> {
        match cosmic_output(self.outputs@, output, 0) {
            Some(i) => if self.outputs@[i].1@.len() > 0 {
                Some(self.outputs@[i].1@)
            } else {
                None
            },
            None => None,
        }
    }

    /// Window `i` is changed by `event` as it says, the names of outputs being known.
    pub open spec fn changed(
        &self,
        before: CosmicWindow,
        after: CosmicWindow,
        event: CosmicEvent,
    ) -> bool {
        let outputs = match event {
            CosmicEvent::OutputEnter(o) => match self.name_of(o) {
                Some(n) => texts(before.outputs@).push(n),
                None => texts(before.outputs@),
            },
            CosmicEvent::OutputLeave(o) => match self.name_of(o) {
                Some(n) => texts(before.outputs@).filter(not_named(n)),
                None => texts(before.outputs@),
            },
            _ => texts(before.outputs@),
        };
        &&& texts(after.outputs@) == outputs
        &&& after.activated == (match event {
            CosmicEvent::State { activated } => activated,
            _ => before.activated,
        })
        &&& after.described == (before.described || event is State)
        &&& after.rect == match event {
            CosmicEvent::Geometry(r) => Some(region_of_rect(r)),
            _ => before.rect,
        }
    }

    /// Nothing known yet, of these outputs.
    pub fn new() -> (r: CosmicSnapshot)
        ensures
            r.windows@.len() == 0,
            r.cosmic_handles@.len() == 0,
            r.outputs@.len() == 0,
    {
        CosmicSnapshot { windows: Vec::new(), cosmic_handles: Vec::new(), outputs: Vec::new() }
    }

    /// The compositor listed a window.
    pub fn announce(&mut self)
        ensures
            final(self).cosmic_handles == old(self).cosmic_handles,
            final(self).outputs == old(self).outputs,
            final(self).windows@.len() == old(self).windows@.len() + 1,
            final(self).windows@.drop_last() == old(self).windows@,
            ({
                let w = final(self).windows@.last();
                !w.activated && !w.described && w.outputs@.len() == 0 && w.rect is None
            }),
    {
        self.windows.push(
            CosmicWindow { activated: false, described: false, outputs: Vec::new(), rect: None },
        );
        assert(self.windows@.drop_last() =~= old(self).windows@);
    }

    /// Whether some window still waits to be described.
    pub fn waiting(&self) -> (r: bool)
        ensures
            r == exists|i: int|
                0 <= i < self.windows@.len() && !(#[trigger] self.windows@[i]).described,
    {
        for i in 0..self.windows.len()
            invariant
                forall|j: int| 0 <= j < i ==> (#[trigger] self.windows@[j]).described,
        {
            if !self.windows[i].described {
                assert(!self.windows@[i as int].described);
                return true;
            }
        }
        false
    }

    /// The connector name of an output, once it is known.
    fn output_name(&self, output: u64) -> (r: Option<String>)
        ensures
            match r {
                Some(n) => self.name_of(output) == Some(n@),
                None => self.name_of(output) is None,
            },
    {
        for i in 0..self.outputs.len()
            invariant
                cosmic_output(self.outputs@, output, 0) == cosmic_output(
                    self.outputs@,
                    output,
                    i as int,
                ),
        {
            if self.outputs[i].0 == output {
                return if self.outputs[i].1.as_str().is_empty() {
                    None
                } else {
                    Some(self.outputs[i].1.clone())
                };
            }
        }
        None
    }

    /// The window whose COSMIC extension object is `handle`. The objects are created in
    /// `windows` order, so the lists stay aligned.
    fn window_of(&self, handle: u64) -> (r: Option<usize>)
        ensures
            match r {
                Some(i) => self.window_at(handle) == Some(i as int) && i < self.windows@.len(),
                None => self.window_at(handle) is None,
            },
    {
        for i in 0..self.cosmic_handles.len()
            invariant
                handle_position(self.cosmic_handles@, handle, 0) == handle_position(
                    self.cosmic_handles@,
                    handle,
                    i as int,
                ),
        {
            if self.cosmic_handles[i] == handle {
                return if i < self.windows.len() {
                    Some(i)
                } else {
                    None
                };
            }
        }
        None
    }

    /// Take in what the compositor says of the window `handle`.
    pub fn event(&mut self, handle: u64, event: CosmicEvent)
        ensures
            final(self).cosmic_handles == old(self).cosmic_handles,
            final(self).outputs == old(self).outputs,
            final(self).windows@.len() == old(self).windows@.len(),
            match old(self).window_at(handle) {
                None => final(self).windows@ == old(self).windows@,
                Some(k) => {
                    &&& old(self).changed(old(self).windows@[k], final(self).windows@[k], event)
                    &&& forall|j: int|
                        0 <= j < old(self).windows@.len() && j != k ==> #[trigger] final(
                            self).windows@[j] == old(self).windows@[j]
                },
            },
    {
        let i: usize = match self.window_of(handle) {
            Some(i) => i,
            None => {
                return ;
            },
        };
        match event {
            CosmicEvent::State { activated } => {
                self.windows[i].described = true;
                self.windows[i].activated = activated;
            },
            CosmicEvent::OutputEnter(output) => {
                if let Some(name) = self.output_name(output) {
                    let ghost before = self.windows@[i as int].outputs@;
                    self.windows[i].outputs.push(name);
                    assert(texts(self.windows@[i as int].outputs@) =~= texts(before).push(name@));
                }
            },
            CosmicEvent::OutputLeave(output) => {
                if let Some(name) = self.output_name(output) {
                    let kept = without_name(&self.windows[i].outputs, name.as_str());
                    self.windows[i].outputs = kept;
                }
            },
            CosmicEvent::Geometry(r) => {
                self.windows[i].rect = Some(to_region(&r));
            },
            CosmicEvent::Other => {},
        }
    }

    /// Name of the focused output: the first the active window entered.
    pub fn focused_output(&self) -> (r: Option<String>)
        ensures
            match first_active(self.windows@, 0) {
                Some(i) => if self.windows@[i].outputs@.len() > 0 {
                    r matches Some(n) && n@ == self.windows@[i].outputs@[0]@
                } else {
                    r is None
                },
                None => r is None,
            },
    {
        match cosmic_active(self.windows.as_slice()) {
            Some(w) => if w.outputs.len() > 0 {
                Some(w.outputs[0].clone())
            } else {
                None
            },
            None => None,
        }
    }

    /// Logical rectangle of the active window, if any.
    pub fn active_window_rect(&self) -> (r: Option<Region>)
        ensures
            r == match first_active(self.windows@, 0) {
                Some(i) => self.windows@[i].rect,
                None => None,
            },
    {
        match cosmic_active(self.windows.as_slice()) {
            Some(w) => w.rect,
            None => None,
        }
    }
}

/// The names but for `name`.
fn without_name(v: &Vec<String>, name: &str) -> (r: Vec<String>)
    ensures
        texts(r@) == texts(v@).filter(not_named(name@)),
{
    let mut out: Vec<String> = Vec::new();
    for i in 0..v.len()
        invariant
            texts(out@) == texts(v@).take(i as int).filter(not_named(name@)),
    {
        assert(texts(v@).take(i + 1).drop_last() =~= texts(v@).take(i as int));
        reveal_with_fuel(Seq::filter, 2);
        if !same(v[i].as_str(), name) {
            let ghost before = out@;
            out.push(v[i].clone());
            assert(texts(out@) =~= texts(before).push(v@[i as int]@));
        }
    }
    assert(texts(v@).take(v@.len() as int) =~= texts(v@));
    out
}

/// Whether a node is `top` or somewhere below it.
pub open spec fn within(w: SwayNode, top: SwayNode) -> bool
    decreases top, 0int,
{
    w == top || within_any(w, top.nodes@, 0) || within_any(w, top.floating_nodes@, 0)
}

/// Whether a node is one of `tops`, from the `k`-th on, or somewhere below one.
pub open spec fn within_any(w: SwayNode, tops: Seq<SwayNode>, k: int) -> bool
    decreases tops, tops.len() - k,
{
    0 <= k < tops.len() && (within(w, tops[k]) || within_any(w, tops, k + 1))
}

/// A window found at a node is the node or below it.
pub proof fn a_hit_is_below_the_node(node: SwayNode, x: int, y: int)
    ensures
        node.hit(x, y) matches Some(w) ==> within(w, node),
    decreases node, 0int,
{
    if node.visible != Some(false) {
        hits_among_are_below(node.floating_nodes@, 0, x, y);
        hits_among_are_below(node.nodes@, 0, x, y);
    }
}

proof fn hits_among_are_below(children: Seq<SwayNode>, k: int, x: int, y: int)
    requires
        0 <= k,
    ensures
        hit_among(children, k, x, y) matches Some(w) ==> within_any(w, children, k),
    decreases children, children.len() - k,
{
    if k < children.len() {
        if region_of_rect(children[k].rect).holds(x, y) {
            a_hit_is_below_the_node(children[k], x, y);
        }
        hits_among_are_below(children, k + 1, x, y);
    }
}

/// The first child that holds a point and has a window there is the one that is found.
proof fn the_first_child_with_a_hit(children: Seq<SwayNode>, k: int, i: int, x: int, y: int) -> (j:
    int)
    requires
        0 <= k <= i < children.len(),
        region_of_rect(children[i].rect).holds(x, y),
        children[i].hit(x, y) is Some,
    ensures
        k <= j <= i,
        region_of_rect(children[j].rect).holds(x, y),
        hit_among(children, k, x, y) is Some,
        hit_among(children, k, x, y) == children[j].hit(x, y),
        forall|m: int|
            k <= m < j ==> !(region_of_rect((#[trigger] children[m]).rect).holds(x, y)
                && children[m].hit(x, y) is Some),
    decreases i - k,
{
    if region_of_rect(children[k].rect).holds(x, y) && children[k].hit(x, y) is Some {
        k
    } else {
        the_first_child_with_a_hit(children, k + 1, i, x, y)
    }
}

/// Floating windows lie over tiled ones. Where a floating child of a node on screen holds the
/// point and has a window under it, the window found at the node is under a floating child, the
/// first that has one, whatever the tiled children have there.
pub proof fn floating_windows_lie_over_tiled_ones(node: SwayNode, i: int, x: int, y: int)
    requires
        node.visible != Some(false),
        0 <= i < node.floating_nodes@.len(),
        node.floating_nodes@[i].rect.x <= x < node.floating_nodes@[i].rect.x
            + node.floating_nodes@[i].rect.width,
        node.floating_nodes@[i].rect.y <= y < node.floating_nodes@[i].rect.y
            + node.floating_nodes@[i].rect.height,
        node.floating_nodes@[i].hit(x, y) is Some,
    ensures
        node.hit(x, y) is Some,
        exists|j: int|
            0 <= j <= i && node.hit(x, y) == (#[trigger] node.floating_nodes@[j]).hit(x, y)
                && within(node.hit(x, y)->0, node.floating_nodes@[j]),
{
    let j = the_first_child_with_a_hit(node.floating_nodes@, 0, i, x, y);
    a_hit_is_below_the_node(node.floating_nodes@[j], x, y);
}

/// The innermost window wins: a node with a child that holds the point and has a window under
/// it is not found itself, and a window is found wherever a child has one.
pub proof fn the_innermost_window_is_found(node: SwayNode, tiled: bool, i: int, x: int, y: int)
    requires
        node.visible != Some(false),
        0 <= i < (if tiled {
            node.nodes@
        } else {
            node.floating_nodes@
        }).len(),
        region_of_rect(
            (if tiled {
                node.nodes@
            } else {
                node.floating_nodes@
            })[i].rect,
        ).holds(x, y),
        (if tiled {
            node.nodes@
        } else {
            node.floating_nodes@
        })[i].hit(x, y) is Some,
    ensures
        node.hit(x, y) matches Some(w) && (within_any(w, node.nodes@, 0) || within_any(
            w,
            node.floating_nodes@,
            0,
        )),
{
    hits_among_are_below(node.floating_nodes@, 0, x, y);
    hits_among_are_below(node.nodes@, 0, x, y);
    if tiled {
        let j = the_first_child_with_a_hit(node.nodes@, 0, i, x, y);
    } else {
        let j = the_first_child_with_a_hit(node.floating_nodes@, 0, i, x, y);
    }
}

/// A window on screen that holds the point and has no children is found at it, and nothing is
/// found at a node that is hidden.
pub proof fn a_leaf_under_the_point_is_found(node: SwayNode, x: int, y: int)
    requires
        node.nodes@.len() == 0,
        node.floating_nodes@.len() == 0,
        node.app_id is Some || node.window_properties is Some,
        node.rect.width >= 0,
        node.rect.height >= 0,
    ensures
        node.hit(x, y) is Some <==> node.visible != Some(false) && node.rect.x <= x < node.rect.x
            + node.rect.width && node.rect.y <= y < node.rect.y + node.rect.height,
        node.hit(x, y) matches Some(w) ==> w == node,
{
}

/// Where no floating child has a window under the point, the first tiled child that holds it
/// and has one decides.
pub proof fn tiled_windows_are_found_in_order(node: SwayNode, i: int, x: int, y: int)
    requires
        node.visible != Some(false),
        forall|m: int|
            0 <= m < node.floating_nodes@.len() ==> (#[trigger] node.floating_nodes@[m]).hit(x, y)
                is None,
        0 <= i < node.nodes@.len(),
        region_of_rect(node.nodes@[i].rect).holds(x, y),
        node.nodes@[i].hit(x, y) is Some,
        forall|m: int| 0 <= m < i ==> (#[trigger] node.nodes@[m]).hit(x, y) is None,
    ensures
        node.hit(x, y) == node.nodes@[i].hit(x, y),
{
    let j = the_first_child_with_a_hit(node.nodes@, 0, i, x, y);
    assert(node.nodes@[j].hit(x, y) is Some);
    nothing_among(node.floating_nodes@, 0, x, y);
}

proof fn nothing_among(children: Seq<SwayNode>, k: int, x: int, y: int)
    requires
        0 <= k,
        forall|m: int| k <= m < children.len() ==> (#[trigger] children[m]).hit(x, y) is None,
    ensures
        hit_among(children, k, x, y) is None,
    decreases children.len() - k,
{
    if k < children.len() {
        nothing_among(children, k + 1, x, y);
    }
}

/// The window under a point is told with its application, its title and where its content
/// lies: at its own corner, moved by where the content starts in it.
pub proof fn a_window_is_told_where_its_content_lies(
    node: SwayNode,
    x: i32,
    y: i32,
    r: Option<WindowRef>,
)
    requires
        node.hit(x as int, y as int) matches Some(w) ==> w.in_range(),
        call_ensures(sway_window_at, (&node, x, y), r),
    ensures
        r is Some <==> node.hit(x as int, y as int) is Some,
        r matches Some(f) ==> {
            let w = node.hit(x as int, y as int)->0;
            &&& w.app_id matches Some(a) ==> f.app_id@ == a@
            &&& w.name matches Some(n) ==> f.title@ == n@
            &&& w.window_rect.width > 0 && w.window_rect.height > 0 ==> f.rect.x - w.rect.x
                == w.window_rect.x && f.rect.y - w.rect.y == w.window_rect.y && f.rect.w
                == w.window_rect.width && f.rect.h == w.window_rect.height
            &&& (w.window_rect.width <= 0 || w.window_rect.height <= 0) && w.rect.width >= 0
                && w.rect.height >= 0 ==> f.rect.x == w.rect.x && f.rect.y == w.rect.y
                && f.rect.w == w.rect.width && f.rect.h == w.rect.height
        },
{
}

/// A compositor is detected by its own mark, and Sway's goes before Hyprland's, Hyprland's before
/// niri's and niri's before that of cosmic-comp.
pub proof fn a_compositor_is_detected_by_its_mark(
    sway: bool,
    hyprland: bool,
    niri: bool,
    cosmic: bool,
    r: Option<Compositor>,
)
    requires
        call_ensures(detect, (sway, hyprland, niri, cosmic), r),
    ensures
        r == Some(Compositor::Sway) <==> sway,
        r == Some(Compositor::Hyprland) <==> hyprland && !sway,
        r == Some(Compositor::Niri) <==> niri && !hyprland && !sway,
        r == Some(Compositor::Cosmic) <==> cosmic && !niri && !hyprland && !sway,
{
}

/// What is found to have the focus has it and is below the node; and where anything below the
/// node has it, something is found.
pub proof fn what_has_the_focus_is_found(node: SwayNode, n: SwayNode)
    ensures
        node.holder() matches Some(h) ==> h.focused && within(h, node),
        within(n, node) && n.focused ==> node.holder() is Some,
    decreases node, 0int,
{
    focus_among(node.nodes@, 0, n);
    focus_among(node.floating_nodes@, 0, n);
}

proof fn focus_among(children: Seq<SwayNode>, k: int, n: SwayNode)
    requires
        0 <= k,
    ensures
        holder_among(children, k) matches Some(h) ==> h.focused && within_any(h, children, k),
        within_any(n, children, k) && n.focused ==> holder_among(children, k) is Some,
    decreases children, children.len() - k,
{
    if k < children.len() {
        what_has_the_focus_is_found(children[k], n);
        focus_among(children, k + 1, n);
        if let Some(h) = children[k].holder() {
            what_has_the_focus_is_found(children[k], h);
        } else if let Some(h) = holder_among(children, k + 1) {
            focus_among(children, k + 1, h);
        }
    }
}

/// The rectangle of the active window is that of what has the focus, where that is a window.
pub proof fn the_active_rectangle_is_the_focused_windows(
    tree: SwayNode,
    n: Option<&SwayNode>,
    r: Option<Region>,
)
    requires
        call_ensures(find_focused, (&tree,), n),
        call_ensures(sway_active_window_rect, (&tree,), r),
    ensures
        n is None ==> r is None,
        n matches Some(w) ==> (w.app_id is Some ==> (r matches Some(g) && g.x == w.rect.x && g.y
            == w.rect.y && (w.rect.width > 0 ==> g.w == w.rect.width) && (w.rect.height > 0 ==> g.h
            == w.rect.height))),
        n matches Some(w) ==> (w.app_id is None && w.window_properties is None && !w.is_container
            ==> r is None),
{
}

/// A node's children are gone through by when they last had the focus: the windows of the one
/// that had it last come first.
pub proof fn the_child_focused_last_comes_first(node: SwayNode, c: int)
    requires
        0 <= c < node.child_count(),
        node.child_count() <= usize::MAX,
        node.focus@.len() > 0,
        node.focus@[0] == node.child(c).id,
        forall|i: int| 0 <= i < node.child_count() && i != c ==> (#[trigger] node.child(i)).id
            != node.child(c).id,
    ensures
        ({
            let own = if node.foreign_toplevel_identifier is Some {
                seq![node]
            } else {
                seq![]
            };
            let first = own + node.child(c).recent();
            first.len() <= node.recent().len() && node.recent().take(first.len() as int) == first
        }),
{
    let ranks = node.child_ranks();
    let order = node.child_order();
    let some = there_is_a_sorted_order(ranks, ranks.len() as int);
    assert(sorts(ranks, some));
    assert(sorts(ranks, order));
    assert(node.focus@.len() == node.focus.len());
    assert(order.contains(c as usize));
    let k = choose|k: int| 0 <= k < order.len() && order[k] == c as usize;
    assert(ranks[c] == 0);
    if k > 0 {
        let i = order[0] as int;
        assert(goes_before(ranks, order[0] as int, order[k] as int));
        ranks_are_positions(node.focus@, node.child(i).id, 0);
        if i != c {
            assert(node.child(i).id != node.child(c).id);
            assert(ranks[i] > 0);
        }
        assert(i == c);
    }
    assert(order[0] == c as usize);
    below_begins(node, order, order.len() as int);
    let own = if node.foreign_toplevel_identifier is Some {
        seq![node]
    } else {
        seq![]
    };
    let first = own + node.child(c).recent();
    assert(node.recent().take(first.len() as int) =~= first);
}

proof fn ranks_are_positions(focus: Seq<i64>, id: i64, k: int)
    requires
        0 <= k <= focus.len() <= usize::MAX,
    ensures
        k <= focus_rank(focus, id, k) <= 0x1_0000_0000_0000_0000,
        focus_rank(focus, id, k) == k && k < focus.len() ==> focus[k] == id,
    decreases focus.len() - k,
{
    if k < focus.len() && focus[k] != id {
        ranks_are_positions(focus, id, k + 1);
    }
}

proof fn below_begins(node: SwayNode, order: Seq<usize>, k: int)
    requires
        0 < k <= order.len(),
        order[0] < node.child_count(),
    ensures
        ({
            let first = node.child(order[0] as int).recent();
            let all = node.recent_below(order, k);
            first.len() <= all.len() && all.take(first.len() as int) == first
        }),
    decreases k,
{
    let first = node.child(order[0] as int).recent();
    let all = node.recent_below(order, k);
    if k == 1 {
        assert(node.recent_below(order, 0) =~= seq![]);
        assert(all =~= first);
    } else {
        below_begins(node, order, k - 1);
    }
    assert(all.take(first.len() as int) =~= first);
}

/// The focused output is one that says so, and the first; there is none where no output does.
pub proof fn the_focused_output_says_so(outputs: Vec<(String, bool)>, r: Option<String>)
    requires
        call_ensures(sway_focused_output, (&outputs,), r),
    ensures
        r matches Some(n) ==> exists|i: int|
            0 <= i < outputs@.len() && (#[trigger] outputs@[i]).1 && outputs@[i].0@ == n@
                && forall|j: int| 0 <= j < i ==> !(#[trigger] outputs@[j]).1,
        r is None <==> forall|i: int| 0 <= i < outputs@.len() ==> !(#[trigger] outputs@[i]).1,
{
    first_focused_is(outputs@, 0);
}

proof fn first_focused_is(outputs: Seq<(String, bool)>, k: int)
    requires
        0 <= k,
    ensures
        match first_focused(outputs, k) {
            Some(i) => k <= i < outputs.len() && outputs[i].1 && forall|j: int|
                k <= j < i ==> !(#[trigger] outputs[j]).1,
            None => forall|j: int| k <= j < outputs.len() ==> !(#[trigger] outputs[j]).1,
        },
    decreases outputs.len() - k,
{
    if k < outputs.len() && !outputs[k].1 {
        first_focused_is(outputs, k + 1);
    }
}

/// The windows of Hyprland go by their place in its history, the lowest first; the first has the
/// focus where it is the active one.
pub proof fn the_history_orders_the_windows(
    rows: Seq<HyprRow>,
    active: Option<Seq<char>>,
    r: FocusOrder,
    i: int,
    j: int,
)
    requires
        hypr_ordered(rows, active, r),
        0 <= i < j < rows.len(),
    ensures
        r.all().len() == rows.len(),
        exists|a: int, b: int|
            0 <= a < rows.len() && 0 <= b < rows.len() && (#[trigger] rows[a]).0 <= (
            #[trigger] rows[b]).0 && rows[a].1 == r.all()[i] && rows[b].1 == r.all()[j],
        r.focused is Some ==> active is Some,
{
    let o = choose|o: Seq<usize>| #[trigger]
        sorts(hypr_ranks(rows), o) && r@ == ranking(
            Seq::new(o.len(), |i: int| rows[o[i] as int].1),
            o.len() > 0 && rows[o[0] as int].2 is Some && rows[o[0] as int].2 == active,
        );
    let ids = Seq::new(o.len(), |i: int| rows[o[i] as int].1);
    a_ranking_lists_every_window(
        r,
        ids,
        o.len() > 0 && rows[o[0] as int].2 is Some && rows[o[0] as int].2 == active,
    );
    assert(goes_before(hypr_ranks(rows), o[i] as int, o[j] as int));
    assert(rows[o[i] as int].0 <= rows[o[j] as int].0);
}

/// Of two windows of niri the one focused later goes first, to the nanosecond.
pub proof fn the_later_stamp_goes_first(
    windows: Seq<NiriWindow>,
    order: Seq<usize>,
    a: int,
    b: int,
)
    requires
        sorts(windows, order),
        0 <= a < b < order.len(),
    ensures
        windows[order[b] as int].stamp matches Some((t, m)) ==> windows[order[a] as int].stamp
            matches Some((s, n)) && (s > t || (s == t && n >= m)),
{
    let (x, y) = (windows[order[a] as int], windows[order[b] as int]);
    assert(goes_before(windows, order[a] as int, order[b] as int));
    if x.before(&y) && y.before(&x) {
        NiriWindow::is_an_order(x, y, x);
    }
}

/// A ranking has the focus on its first window where that has it, and on none else.
pub proof fn the_focus_is_on_the_first(order: FocusOrder, ids: Seq<Seq<char>>, has_focus: bool)
    requires
        order@ == ranking(ids, has_focus),
    ensures
        order.focused is Some <==> has_focus && ids.len() > 0,
        order.focused matches Some(f) ==> f@ == ids[0] && texts(order.unfocused@) == ids.skip(1),
        order.focused is None ==> texts(order.unfocused@) == ids,
{
}

/// What cosmic-comp says of a window changes that window and no other.
pub proof fn an_event_of_cosmic_is_about_its_window(
    s: &mut CosmicSnapshot,
    handle: u64,
    event: CosmicEvent,
    k: int,
)
    requires
        call_ensures(CosmicSnapshot::event, (s, handle, event), ()),
        0 <= k < old(s).cosmic_handles@.len(),
        k < old(s).windows@.len(),
        old(s).cosmic_handles@[k] == handle,
        forall|j: int| 0 <= j < k ==> #[trigger] old(s).cosmic_handles@[j] != handle,
    ensures
        ({
            let (a, b) = (old(s).windows@[k], final(s).windows@[k]);
            match event {
                CosmicEvent::State { activated } => b.activated == activated && b.described
                    && b.rect == a.rect && texts(b.outputs@) == texts(a.outputs@),
                CosmicEvent::Geometry(r) => b.activated == a.activated && texts(b.outputs@)
                    == texts(a.outputs@) && (b.rect matches Some(g) && g.x == r.x && g.y == r.y && (
                r.width > 0 ==> g.w == r.width) && (r.height > 0 ==> g.h == r.height)),
                CosmicEvent::OutputEnter(_) | CosmicEvent::OutputLeave(_) => b.activated
                    == a.activated && b.rect == a.rect,
                CosmicEvent::Other => b.activated == a.activated && b.rect == a.rect && texts(
                    b.outputs@,
                ) == texts(a.outputs@),
            }
        }),
        forall|j: int|
            0 <= j < old(s).windows@.len() && j != k ==> #[trigger] final(s).windows@[j] == old(
                s,
            ).windows@[j],
{
    handle_is_at(old(s).cosmic_handles@, handle, 0, k);
}

proof fn handle_is_at(v: Seq<u64>, handle: u64, k: int, n: int)
    requires
        0 <= k <= n < v.len(),
        v[n] == handle,
        forall|j: int| k <= j < n ==> #[trigger] v[j] != handle,
    ensures
        handle_position(v, handle, k) == Some(n),
    decreases n - k,
{
    if k < n {
        assert(v[k] != handle);
        handle_is_at(v, handle, k + 1, n);
    }
}

/// A window is on the outputs it entered and not on those it left.
pub proof fn a_window_is_where_it_entered(
    s: &mut CosmicSnapshot,
    handle: u64,
    output: u64,
    entered: bool,
    k: int,
    i: int,
)
    requires
        call_ensures(
            CosmicSnapshot::event,
            (
                s,
                handle,
                if entered {
                    CosmicEvent::OutputEnter(output)
                } else {
                    CosmicEvent::OutputLeave(output)
                },
            ),
            (),
        ),
        0 <= k < old(s).cosmic_handles@.len(),
        k < old(s).windows@.len(),
        old(s).cosmic_handles@[k] == handle,
        forall|j: int| 0 <= j < k ==> #[trigger] old(s).cosmic_handles@[j] != handle,
        0 <= i < old(s).outputs@.len(),
        old(s).outputs@[i].0 == output,
        old(s).outputs@[i].1@.len() > 0,
        forall|j: int| 0 <= j < i ==> (#[trigger] old(s).outputs@[j]).0 != output,
    ensures
        texts(final(s).windows@[k].outputs@).contains(old(s).outputs@[i].1@) <==> entered,
{
    handle_is_at(old(s).cosmic_handles@, handle, 0, k);
    output_is_at(old(s).outputs@, output, 0, i);
    let name = old(s).outputs@[i].1@;
    let before = texts(old(s).windows@[k].outputs@);
    let after = texts(final(s).windows@[k].outputs@);
    if entered {
        assert(after == before.push(name));
        assert(after.last() == name);
    } else {
        broadcast use vstd::seq_lib::group_filter_ensures;

        let keep = not_named(name);
        assert(after == before.filter(keep));
        if after.contains(name) {
            let j = choose|j: int| 0 <= j < after.len() && after[j] == name;
            assert(keep(after[j]));
        }
    }
}

proof fn output_is_at(v: Seq<(u64, String)>, output: u64, k: int, n: int)
    requires
        0 <= k <= n < v.len(),
        v[n].0 == output,
        forall|j: int| k <= j < n ==> (#[trigger] v[j]).0 != output,
    ensures
        cosmic_output(v, output, k) == Some(n),
    decreases n - k,
{
    if k < n {
        assert(v[k].0 != output);
        output_is_at(v, output, k + 1, n);
    }
}

/// The current output is the one that the first activated window entered first, and the active
/// rectangle is that window's.
pub proof fn the_active_window_tells_the_output(
    s: CosmicSnapshot,
    output: Option<String>,
    rect: Option<Region>,
    i: int,
)
    requires
        call_ensures(CosmicSnapshot::focused_output, (&s,), output),
        call_ensures(CosmicSnapshot::active_window_rect, (&s,), rect),
        0 <= i < s.windows@.len(),
        s.windows@[i].activated,
        forall|j: int| 0 <= j < i ==> !(#[trigger] s.windows@[j]).activated,
    ensures
        rect == s.windows@[i].rect,
        s.windows@[i].outputs@.len() > 0 ==> (output matches Some(n) && n@
            == s.windows@[i].outputs@[0]@),
        s.windows@[i].outputs@.len() == 0 ==> output is None,
{
    active_is(s.windows@, 0, i);
}

proof fn active_is(windows: Seq<CosmicWindow>, k: int, i: int)
    requires
        0 <= k <= i < windows.len(),
        windows[i].activated,
        forall|j: int| k <= j < i ==> !(#[trigger] windows[j]).activated,
    ensures
        first_active(windows, k) == Some(i),
    decreases i - k,
{
    if k < i {
        assert(!windows[k].activated);
        active_is(windows, k + 1, i);
    }
}

/// A window of cosmic-comp is activated where its states hold the one that is numbered two.
pub proof fn activation_is_told_among_the_states(states: &[u8], little: bool, big: bool)
    requires
        call_ensures(cosmic_is_activated_in, (states, ByteOrder::Little), little),
        call_ensures(cosmic_is_activated_in, (states, ByteOrder::Big), big),
    ensures
        little <==> exists|i: int| #[trigger] crate::bytes::stands(states@, i, 2, 0, 0, 0),
        big <==> exists|i: int| #[trigger] crate::bytes::stands(states@, i, 0, 0, 0, 2),
{
    crate::bytes::small_words_are_mostly_nought(states@, 2);
}

/// Hyprland's active window lies at the first of its pairs and is as large as the second, across
/// before down.
pub proof fn a_window_lies_at_its_place(w: Tree, at: Seq<Tree>, size: Seq<Tree>)
    requires
        w.member("at"@) == Some(Tree::List(at)),
        w.member("size"@) == Some(Tree::List(size)),
        at.len() == 2,
        size.len() == 2,
        at[0] is Natural && at[0]->Natural_0 <= i32::MAX,
        at[1] is Natural && at[1]->Natural_0 <= i32::MAX,
        size[0] is Natural && size[0]->Natural_0 <= i32::MAX,
        size[1] is Natural && size[1]->Natural_0 <= i32::MAX,
    ensures
        active_rect_in(w) matches Some(r) && r.x == at[0]->Natural_0 && r.y == at[1]->Natural_0
            && r.w == size[0]->Natural_0 && r.h == size[1]->Natural_0,
{
}

/// Hyprland's current output is the first that says it is focused, by its name.
pub proof fn the_focused_monitor_names_the_output(list: Seq<Tree>, i: int, name: Seq<char>)
    requires
        0 <= i < list.len(),
        list[i].member("focused"@) == Some(Tree::Bool(true)),
        list[i].member("name"@) == Some(Tree::Text(name)),
        forall|j: int| 0 <= j < i ==> (#[trigger] list[j]).member("focused"@) == Some(
            Tree::Bool(false),
        ),
    ensures
        focused_output_in(Tree::List(list)) == Some(name),
{
    monitor_is(list, 0, i);
}

proof fn monitor_is(list: Seq<Tree>, k: int, i: int)
    requires
        0 <= k <= i < list.len(),
        list[i].member("focused"@) == Some(Tree::Bool(true)),
        forall|j: int| k <= j < i ==> (#[trigger] list[j]).member("focused"@) == Some(
            Tree::Bool(false),
        ),
    ensures
        focused_monitor(list, k) == Some(list[i]),
    decreases i - k,
{
    if k < i {
        assert(list[k].member("focused"@) == Some(Tree::Bool(false)));
        monitor_is(list, k + 1, i);
    }
}

} // verus!
