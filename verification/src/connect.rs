//! What a connection to the compositor binds, and which GPU its buffers are allocated on.

use crate::error::CaptureError;
use crate::icons::{below, join_path};
use crate::order::{goes_before, sort_positions, text_before, SortKey, TextKey};
use crate::text::{chars_of, decimal, occurs_at, push_decimal, stands_at, views};
use crate::wl::{bindable, can_bind, protocol_for, select_protocol, Protocol};
use vstd::prelude::*;
use vstd::string::*;

verus! {

/// What a connection binds. Window capture only landed in later compositors, and the older
/// protocol never captures a window at all, so what it needs is bound where it is there;
/// screen-only capture still works without.
#[derive(Clone, Copy, Debug, PartialEq, Eq, Structural)]
pub struct Binding {
    /// The capture protocol that is driven.
    pub protocol: Protocol,
    /// The source by which windows are captured.
    pub window_source: bool,
    /// The list of windows.
    pub list: bool,
    /// The older list of windows, for its app ids.
    pub wlr_manager: bool,
    /// Authoritative logical geometry.
    pub xdg_output: bool,
    /// Buffers on the GPU.
    pub dmabuf: bool,
    /// Whether the compositor is asked which GPU it renders on: the older protocol's frames
    /// don't name the device they want buffers on.
    pub feedback: bool,
}

impl Binding {
    /// What the globals allow.
    pub open spec fn of(globals: Seq<(String, u32)>, protocol: Protocol) -> Binding {
        let screencopy = protocol == Protocol::Screencopy;
        Binding {
            protocol,
            window_source: !screencopy && bindable(
                globals,
                "ext_foreign_toplevel_image_capture_source_manager_v1"@,
                1,
            ),
            list: bindable(globals, "ext_foreign_toplevel_list_v1"@, 1),
            wlr_manager: bindable(globals, "zwlr_foreign_toplevel_manager_v1"@, 1),
            xdg_output: bindable(globals, "zxdg_output_manager_v1"@, 1),
            dmabuf: bindable(globals, "zwp_linux_dmabuf_v1"@, 3),
            feedback: screencopy && bindable(globals, "zwp_linux_dmabuf_v1"@, 4),
        }
    }

    /// Whether individual windows can be captured: by their source, among those listed. When
    /// not, only screen capture works.
    pub fn can_capture_windows(&self) -> (r: bool)
        ensures
            r == (self.window_source && self.list),
    {
        self.window_source && self.list
    }
}

/// The older protocol addresses outputs only: under it no window can be captured.
pub proof fn screencopy_captures_no_windows(globals: Seq<(String, u32)>)
    ensures
        !Binding::of(globals, Protocol::Screencopy).window_source,
{
}

/// Why nothing can be captured.
pub const NO_PROTOCOL: &'static str = "no capture protocol: neither ext_image_copy_capture_manager_v1 + ext_output_image_capture_source_manager_v1 nor zwlr_screencopy_manager_v1";

/// What frames are captured with.
pub const IMAGE_COPY: &'static str = "ext_image_copy_capture_manager_v1";

/// What an output is captured by.
pub const OUTPUT_SOURCE: &'static str = "ext_output_image_capture_source_manager_v1";

/// Why the older protocol is of no use.
pub const OLD_SCREENCOPY: &'static str = "zwlr_screencopy_manager_v1 v3";

/// What binding a global above its version says.
pub const UNSUPPORTED_VERSION: &'static str = "the requested version of the global is not supported";

/// `r` is what binding a global at a version it does not have comes to.
pub open spec fn too_old<T>(r: Result<T, CaptureError>, what: Seq<char>) -> bool {
    r matches Err(CaptureError::Backend { context, source }) && context@ == what && views(source@)
        == seq![UNSUPPORTED_VERSION@]
}

fn refused<T>(what: &str) -> (r: Result<T, CaptureError>)
    ensures
        too_old(r, what@),
{
    let source = vec![String::from_str(UNSUPPORTED_VERSION)];
    assert(views(source@) =~= seq![UNSUPPORTED_VERSION@]);
    Err(CaptureError::Backend { context: String::from_str(what), source })
}

/// What to bind of what the compositor advertises. Without a capture protocol, or with one
/// too old to describe its buffers, there is nothing to connect for.
pub fn connect(globals: &[(String, u32)], force_screencopy: bool) -> (r: Result<
    Binding,
    CaptureError,
>)
    ensures
        match protocol_for(globals@, force_screencopy) {
            None => r matches Err(CaptureError::Backend { context, source }) && context@
                == NO_PROTOCOL@ && source@.len() == 0,
            Some(Protocol::Screencopy) => if bindable(
                globals@,
                "zwlr_screencopy_manager_v1"@,
                3,
            ) {
                r matches Ok(b) && b == Binding::of(globals@, Protocol::Screencopy)
            } else {
                too_old(r, OLD_SCREENCOPY@)
            },
            Some(Protocol::ImageCopyCapture) => if !bindable(globals@, IMAGE_COPY@, 1) {
                too_old(r, IMAGE_COPY@)
            } else if !bindable(globals@, OUTPUT_SOURCE@, 1) {
                too_old(r, OUTPUT_SOURCE@)
            } else {
                r matches Ok(b) && b == Binding::of(globals@, Protocol::ImageCopyCapture)
            },
        },
{
    let protocol = match select_protocol(globals, force_screencopy) {
        Some(p) => p,
        None => {
            return Err(CaptureError::msg(NO_PROTOCOL));
        },
    };
    let screencopy = protocol == Protocol::Screencopy;
    if screencopy {
        if !can_bind(globals, "zwlr_screencopy_manager_v1", 3) {
            return refused(OLD_SCREENCOPY);
        }
    } else if !can_bind(globals, IMAGE_COPY, 1) {
        return refused(IMAGE_COPY);
    } else if !can_bind(globals, OUTPUT_SOURCE, 1) {
        return refused(OUTPUT_SOURCE);
    }
    Ok(
        Binding {
            protocol,
            window_source: !screencopy && can_bind(
                globals,
                "ext_foreign_toplevel_image_capture_source_manager_v1",
                1,
            ),
            list: can_bind(globals, "ext_foreign_toplevel_list_v1", 1),
            wlr_manager: can_bind(globals, "zwlr_foreign_toplevel_manager_v1", 1),
            xdg_output: can_bind(globals, "zxdg_output_manager_v1", 1),
            dmabuf: can_bind(globals, "zwp_linux_dmabuf_v1", 3),
            feedback: screencopy && can_bind(globals, "zwp_linux_dmabuf_v1", 4),
        },
    )
}

/// The version an output is bound at.
pub fn output_version(advertised: u32) -> (r: u32)
    ensures
        r == if advertised < 4 {
            advertised
        } else {
            4
        },
{
    if advertised < 4 {
        advertised
    } else {
        4
    }
}

/// Whether buffers on the GPU are off: asked for by a flag for the whole run, or by the
/// environment.
pub fn gpu_disabled(by_flag: bool, by_environment: bool) -> (r: bool)
    ensures
        r == (by_flag || by_environment),
{
    by_flag || by_environment
}

/// `rustix::fs::major`: the major number of a device.
#[verifier::external_body]
fn major(dev: u64) -> (r: u32)
    ensures
        r == (((dev >> 32u64) & 0xffff_f000u64) | ((dev >> 8u64) & 0xfffu64)) as u32,
{
    rustix::fs::major(dev)
}

/// `rustix::fs::minor`: the minor number of a device.
#[verifier::external_body]
fn minor(dev: u64) -> (r: u32)
    ensures
        r == (((dev >> 12u64) & 0xffff_ff00u64) | (dev & 0xffu64)) as u32,
{
    rustix::fs::minor(dev)
}

/// The major number of a device.
pub open spec fn major_of(dev: u64) -> u32 {
    (((dev >> 32u64) & 0xffff_f000u64) | ((dev >> 8u64) & 0xfffu64)) as u32
}

/// The minor number of a device.
pub open spec fn minor_of(dev: u64) -> u32 {
    (((dev >> 12u64) & 0xffff_ff00u64) | (dev & 0xffu64)) as u32
}

/// Where the kernel lists the nodes of a device. A compositor may name its *primary* node,
/// whose render node is its sibling there.
pub fn sysfs_dir(dev: u64) -> (r: String)
    ensures
        r@ == "/sys/dev/char/"@ + decimal(major_of(dev) as nat) + ":"@ + decimal(
            minor_of(dev) as nat,
        ) + "/device/drm"@,
{
    let mut s = String::from_str("/sys/dev/char/");
    push_decimal(&mut s, major(dev) as u64);
    s.append(":");
    push_decimal(&mut s, minor(dev) as u64);
    s.append("/device/drm");
    s
}

/// Whether a file in the device directory is a render node.
pub open spec fn is_render_node(name: Seq<char>) -> bool {
    occurs_at(name, "renderD"@, 0)
}

fn names_render_node(name: &str) -> (r: bool)
    ensures
        r == is_render_node(name@),
{
    let n = chars_of(name);
    let prefix = chars_of("renderD");
    stands_at(n.as_slice(), prefix.as_slice(), 0)
}

/// The first render node of a listing, from the `k`-th entry on.
pub open spec fn first_render_node(names: Seq<Seq<char>>, k: int) -> Option<Seq<char>>
    decreases names.len() - k,
{
    if k < 0 || k >= names.len() {
        None
    } else if is_render_node(names[k]) {
        Some(below("/dev/dri"@, names[k]))
    } else {
        first_render_node(names, k + 1)
    }
}

/// The render node among the nodes the kernel lists for a device, in the listing's order.
pub fn sysfs_render_node(names: &Vec<String>) -> (r: Option<String>)
    ensures
        match r {
            Some(p) => first_render_node(views(names@), 0) == Some(p@),
            None => first_render_node(views(names@), 0) is None,
        },
{
    let ghost all = views(names@);
    for i in 0..names.len()
        invariant
            all == views(names@),
            first_render_node(all, 0) == first_render_node(all, i as int),
    {
        assert(all[i as int] == names@[i as int]@);
        if names_render_node(names[i].as_str()) {
            return Some(join_path("/dev/dri", names[i].as_str()));
        }
    }
    None
}

/// The predicate behind [`render_nodes`].
pub open spec fn render_node_names() -> spec_fn(Seq<char>) -> bool {
    |n: Seq<char>| is_render_node(n)
}

/// `p` lists positions of `names` in dictionary order, each once.
pub open spec fn ordered(names: Seq<Seq<char>>, p: Seq<usize>) -> bool {
    &&& p.len() == names.len()
    &&& forall|k: int| 0 <= k < p.len() ==> 0 <= #[trigger] p[k] < names.len()
    &&& forall|v: usize| 0 <= v < names.len() ==> #[trigger] p.contains(v)
    &&& forall|a: int, b: int|
        0 <= a < b < p.len() ==> !text_before(
            names[#[trigger] p[b] as int],
            names[#[trigger] p[a] as int],
        )
}

/// The render nodes of the device directory, by name.
pub fn render_nodes(names: &Vec<String>) -> (r: Vec<String>)
    ensures
        exists|p: Seq<usize>|
            #[trigger] ordered(views(names@).filter(render_node_names()), p) && views(r@)
                == Seq::new(
                p.len(),
                |i: int|
                    below(
                        "/dev/dri"@,
                        views(names@).filter(render_node_names())[p[i] as int],
                    ),
            ),
{
    let ghost all = views(names@);
    let ghost keep = render_node_names();
    let mut kept: Vec<String> = Vec::new();
    let mut keys: Vec<TextKey> = Vec::new();
    assert(all.take(0).filter(keep) =~= Seq::empty()) by {
        reveal(Seq::filter);
    }
    assert(views(kept@) =~= Seq::empty());
    for i in 0..names.len()
        invariant
            all == views(names@),
            keep == render_node_names(),
            views(kept@) == all.take(i as int).filter(keep),
            keys@.len() == kept@.len(),
            forall|j: int| 0 <= j < kept@.len() ==> (#[trigger] keys@[j])@ == kept@[j]@,
    {
        proof {
            assert(all[i as int] == names@[i as int]@);
            assert(all.take(i + 1).drop_last() =~= all.take(i as int));
            assert(all.take(i + 1).last() == all[i as int]);
            reveal(Seq::filter);
        }
        if names_render_node(names[i].as_str()) {
            let ghost before = kept@;
            kept.push(names[i].clone());
            keys.push(TextKey::new(names[i].as_str()));
            assert(views(kept@) =~= views(before).push(names@[i as int]@));
        }
    }
    assert(all.take(names@.len() as int) =~= all);
    let p = sort_positions(&keys);
    let ghost found = views(kept@);
    proof {
        assert forall|a: int, b: int| 0 <= a < b < p@.len() implies !text_before(
            found[#[trigger] p@[b] as int],
            found[#[trigger] p@[a] as int],
        ) by {
            assert(goes_before(keys@, p@[a] as int, p@[b] as int));
            let (x, y) = (keys@[p@[a] as int], keys@[p@[b] as int]);
            assert(x@ == found[p@[a] as int]);
            assert(y@ == found[p@[b] as int]);
            TextKey::is_an_order(x, y, x);
        }
        assert(ordered(found, p@));
    }
    let ghost wanted = Seq::new(p@.len(), |i: int| below("/dev/dri"@, found[p@[i] as int]));
    let mut out: Vec<String> = Vec::new();
    for k in 0..p.len()
        invariant
            found == views(kept@),
            ordered(found, p@),
            wanted == Seq::new(p@.len(), |i: int| below("/dev/dri"@, found[p@[i] as int])),
            views(out@) == wanted.take(k as int),
    {
        let path = join_path("/dev/dri", kept[p[k]].as_str());
        let ghost before = out@;
        assert(path@ == wanted[k as int]);
        out.push(path);
        assert(views(out@) =~= views(before).push(path@));
        assert(wanted.take(k + 1) =~= wanted.take(k as int).push(wanted[k as int]));
    }
    assert(wanted.take(p@.len() as int) =~= wanted);
    out
}

/// The first node that is that device, from the `k`-th on.
pub open spec fn node_of(devices: Seq<Option<u64>>, dev: u64, k: int) -> Option<int>
    decreases devices.len() - k,
{
    if k < 0 || k >= devices.len() {
        None
    } else if devices[k] == Some(dev) {
        Some(k)
    } else {
        node_of(devices, dev, k + 1)
    }
}

/// The render node to allocate on: the one that is the advertised device, then the one the
/// kernel lists beside it, else the first, else the usual one.
pub open spec fn render_node(
    nodes: Seq<Seq<char>>,
    devices: Seq<Option<u64>>,
    dev: Option<u64>,
    beside: Option<Seq<char>>,
) -> Seq<char> {
    let first = if nodes.len() > 0 {
        nodes[0]
    } else {
        "/dev/dri/renderD128"@
    };
    match dev {
        None => first,
        Some(d) => match node_of(devices, d, 0) {
            Some(i) => nodes[i],
            None => match beside {
                Some(p) => p,
                None => first,
            },
        },
    }
}

/// Resolve the render node to allocate on, best effort. `devices` is what each of `nodes` is,
/// where that could be read, and `beside` the render node that the kernel lists beside the
/// advertised device.
pub fn render_node_for(
    nodes: &Vec<String>,
    devices: &Vec<Option<u64>>,
    dev: Option<u64>,
    beside: Option<String>,
) -> (r: String)
    requires
        devices@.len() == nodes@.len(),
    ensures
        r@ == render_node(
            views(nodes@),
            devices@,
            dev,
            match beside {
                Some(p) => Some(p@),
                None => None,
            },
        ),
{
    if let Some(d) = dev {
        for i in 0..nodes.len()
            invariant
                devices@.len() == nodes@.len(),
                dev == Some(d),
                node_of(devices@, d, 0) == node_of(devices@, d, i as int),
        {
            if let Some(x) = devices[i] {
                if x == d {
                    assert(views(nodes@)[i as int] == nodes@[i as int]@);
                    return nodes[i].clone();
                }
            }
        }
        if let Some(p) = beside {
            return p;
        }
    }
    if nodes.len() > 0 {
        assert(views(nodes@)[0] == nodes@[0]@);
        nodes[0].clone()
    } else {
        String::from_str("/dev/dri/renderD128")
    }
}

/// What is bound was announced at the version that it is used at, and the first global of the
/// name counts.
pub proof fn what_is_bound_was_announced(
    globals: &[(String, u32)],
    forced: bool,
    b: Binding,
    i: int,
)
    requires
        call_ensures(connect, (globals, forced), Ok::<Binding, CaptureError>(b)),
        0 <= i < globals@.len(),
        forall|j: int| 0 <= j < globals@.len() && j != i ==> (#[trigger] globals@[j]).0@
            != globals@[i].0@,
    ensures
        ({
            let (name, version) = (globals@[i].0@, globals@[i].1);
            &&& name == "zwp_linux_dmabuf_v1"@ ==> (b.dmabuf <==> version >= 3)
            &&& name == "zwp_linux_dmabuf_v1"@ ==> (b.feedback <==> b.protocol
                == Protocol::Screencopy && version >= 4)
            &&& name == "ext_foreign_toplevel_list_v1"@ ==> (b.list <==> version >= 1)
            &&& name == "zwlr_foreign_toplevel_manager_v1"@ ==> (b.wlr_manager <==> version >= 1)
            &&& name == "zxdg_output_manager_v1"@ ==> (b.xdg_output <==> version >= 1)
            &&& name == "ext_foreign_toplevel_image_capture_source_manager_v1"@ ==> (b.window_source
                <==> b.protocol == Protocol::ImageCopyCapture && version >= 1)
        }),
{
    announced_at(globals@, 0, i);
}

proof fn announced_at(globals: Seq<(String, u32)>, k: int, i: int)
    requires
        0 <= k <= i < globals.len(),
        forall|j: int| 0 <= j < globals.len() && j != i ==> (#[trigger] globals[j]).0@
            != globals[i].0@,
    ensures
        crate::wl::version_from(globals, globals[i].0@, k) == Some(globals[i].1),
    decreases i - k,
{
    if k < i {
        assert(globals[k].0@ != globals[i].0@);
        announced_at(globals, k + 1, i);
    }
}

/// What was not announced is not bound.
pub proof fn what_was_not_announced_is_not_bound(
    globals: &[(String, u32)],
    forced: bool,
    b: Binding,
)
    requires
        call_ensures(connect, (globals, forced), Ok::<Binding, CaptureError>(b)),
    ensures
        !crate::wl::is_there(globals@, "zwp_linux_dmabuf_v1"@) ==> !b.dmabuf && !b.feedback,
        !crate::wl::is_there(globals@, "ext_foreign_toplevel_list_v1"@) ==> !b.list,
        !crate::wl::is_there(globals@, "zxdg_output_manager_v1"@) ==> !b.xdg_output,
        !crate::wl::is_there(globals@, "zwlr_foreign_toplevel_manager_v1"@) ==> !b.wlr_manager,
        !crate::wl::is_there(globals@, "ext_foreign_toplevel_image_capture_source_manager_v1"@)
            ==> !b.window_source,
{
    not_announced(globals@, "zwp_linux_dmabuf_v1"@, 0);
    not_announced(globals@, "ext_foreign_toplevel_list_v1"@, 0);
    not_announced(globals@, "zxdg_output_manager_v1"@, 0);
    not_announced(globals@, "zwlr_foreign_toplevel_manager_v1"@, 0);
    not_announced(globals@, "ext_foreign_toplevel_image_capture_source_manager_v1"@, 0);
}

proof fn not_announced(globals: Seq<(String, u32)>, name: Seq<char>, k: int)
    requires
        0 <= k,
    ensures
        !crate::wl::is_there(globals, name) ==> crate::wl::version_from(globals, name, k) is None,
    decreases globals.len() - k,
{
    if k < globals.len() {
        not_announced(globals, name, k + 1);
        if globals[k].0@ == name {
            assert(crate::wl::is_there(globals, name));
        }
    }
}

/// Windows can be captured where they can be listed and are a source.
pub proof fn windows_need_a_list_and_a_source(b: Binding, r: bool)
    requires
        call_ensures(Binding::can_capture_windows, (&b,), r),
    ensures
        r ==> b.list && b.window_source,
        !r ==> !b.list || !b.window_source,
{
}

/// An output is bound at the version that is announced, up to the last that is known.
pub proof fn no_version_is_made_up(advertised: u32, r: u32)
    requires
        call_ensures(output_version, (advertised,), r),
    ensures
        r <= advertised,
        r <= 4,
        r == advertised || r == 4,
{
}

/// Buffers are allocated on the device that the compositor names: by the node that is that
/// device, by the one found beside it where none is, and by the first there is where no device is
/// named.
pub proof fn buffers_are_allocated_on_the_device(
    nodes: Vec<String>,
    devices: Vec<Option<u64>>,
    dev: Option<u64>,
    beside: Option<String>,
    r: String,
    i: int,
)
    requires
        devices@.len() == nodes@.len(),
        call_ensures(render_node_for, (&nodes, &devices, dev, beside), r),
    ensures
        0 <= i < nodes@.len() && dev is Some && devices@[i] == dev && (forall|j: int|
            0 <= j < i ==> #[trigger] devices@[j] != dev) ==> r@ == nodes@[i]@,
        dev is Some && (forall|j: int| 0 <= j < devices@.len() ==> #[trigger] devices@[j] != dev)
            ==> (beside matches Some(p) ==> r@ == p@),
        dev is None && nodes@.len() > 0 ==> r@ == nodes@[0]@,
{
    if nodes@.len() > 0 {
        assert(views(nodes@)[0] == nodes@[0]@);
    }
    if let Some(d) = dev {
        if 0 <= i < nodes@.len() && devices@[i] == dev && (forall|j: int|
            0 <= j < i ==> #[trigger] devices@[j] != dev) {
            node_is_at(devices@, d, 0, i);
            assert(views(nodes@)[i] == nodes@[i]@);
        }
        if forall|j: int| 0 <= j < devices@.len() ==> #[trigger] devices@[j] != dev {
            no_node(devices@, d, 0);
        }
    }
}

proof fn node_is_at(devices: Seq<Option<u64>>, dev: u64, k: int, i: int)
    requires
        0 <= k <= i < devices.len(),
        devices[i] == Some(dev),
        forall|j: int| k <= j < i ==> #[trigger] devices[j] != Some(dev),
    ensures
        node_of(devices, dev, k) == Some(i),
    decreases i - k,
{
    if k < i {
        assert(devices[k] != Some(dev));
        node_is_at(devices, dev, k + 1, i);
    }
}

proof fn no_node(devices: Seq<Option<u64>>, dev: u64, k: int)
    requires
        0 <= k,
        forall|j: int| 0 <= j < devices.len() ==> #[trigger] devices[j] != Some(dev),
    ensures
        node_of(devices, dev, k) is None,
    decreases devices.len() - k,
{
    if k < devices.len() {
        assert(devices[k] != Some(dev));
        no_node(devices, dev, k + 1);
    }
}

/// The node beside a device is the first of its directory that is one for rendering.
pub proof fn the_node_beside_is_for_rendering(names: Vec<String>, r: Option<String>)
    requires
        call_ensures(sysfs_render_node, (&names,), r),
    ensures
        r matches Some(p) ==> exists|i: int|
            0 <= i < names@.len() && occurs_at((#[trigger] names@[i])@, "renderD"@, 0) && p@
                == below("/dev/dri"@, names@[i]@) && forall|j: int|
                0 <= j < i ==> !occurs_at((#[trigger] names@[j])@, "renderD"@, 0),
        r is None ==> forall|j: int|
            0 <= j < names@.len() ==> !occurs_at((#[trigger] names@[j])@, "renderD"@, 0),
{
    first_node_is(names@, 0);
}

proof fn first_node_is(names: Seq<String>, k: int)
    requires
        0 <= k,
    ensures
        match first_render_node(views(names), k) {
            Some(p) => exists|i: int|
                k <= i < names.len() && occurs_at((#[trigger] names[i])@, "renderD"@, 0) && p
                    == below("/dev/dri"@, names[i]@) && forall|j: int|
                    k <= j < i ==> !occurs_at((#[trigger] names[j])@, "renderD"@, 0),
            None => forall|j: int|
                k <= j < names.len() ==> !occurs_at((#[trigger] names[j])@, "renderD"@, 0),
        },
    decreases names.len() - k,
{
    if k < names.len() {
        assert(views(names)[k] == names[k]@);
        if is_render_node(names[k]@) {
            assert(occurs_at(names[k]@, "renderD"@, 0));
        } else {
            first_node_is(names, k + 1);
        }
    }
}

} // verus!
