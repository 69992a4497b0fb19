//! Focusing a window on cosmic-comp, over `zcosmic_toplevel_manager_v1`.
//!
//! cosmic-comp advertises no `zwlr_foreign_toplevel_manager_v1`. Its replacement is
//! `zcosmic_toplevel_manager_v1.activate`, which takes a `zcosmic_toplevel_handle_v1`;
//! that handle comes from `zcosmic_toplevel_info_v1.get_cosmic_toplevel`, which in turn
//! takes the window's `ext_foreign_toplevel_handle_v1` — so the target is named by its
//! exact identifier.

use crate::bytes::{holds_word, host_order, words, ByteOrder};
use crate::error::{failed_with, no_cause, CaptureError};
use crate::text::same;
use crate::wl::{advertised, is_advertised};
use vstd::prelude::*;
use vstd::string::*;

verus! {

/// Where `identifier` first stands, from `k` on.
pub open spec fn position_from(ids: Seq<&str>, identifier: Seq<char>, k: int) -> Option<int>
    decreases ids.len() - k,
{
    if k < 0 || k >= ids.len() {
        None
    } else if ids[k]@ == identifier {
        Some(k)
    } else {
        position_from(ids, identifier, k + 1)
    }
}

/// Where the window named `identifier` sits among the advertised ones.
///
/// `ext-foreign-toplevel-list-v1` identifiers are opaque, unique per window and stable
/// for its lifetime: the match is exact, never a prefix or a position.
pub fn position_of(identifiers: &[&str], identifier: &str) -> (r: Option<usize>)
    ensures
        match r {
            Some(i) => position_from(identifiers@, identifier@, 0) == Some(i as int),
            None => position_from(identifiers@, identifier@, 0) is None,
        },
{
    for i in 0..identifiers.len()
        invariant
            position_from(identifiers@, identifier@, 0) == position_from(
                identifiers@,
                identifier@,
                i as int,
            ),
    {
        if same(identifiers[i], identifier) {
            return Some(i);
        }
    }
    None
}

/// Whether the compositor advertises `zcosmic_toplevel_manager_v1` with a version that
/// can name our windows, without binding anything: `get_cosmic_toplevel` arrived in
/// version 2 of `zcosmic_toplevel_info_v1`.
pub fn manager_advertised(globals: &[(String, u32)]) -> (r: bool)
    ensures
        r == (advertised(globals@, "zcosmic_toplevel_manager_v1"@, 1) && advertised(
            globals@,
            "zcosmic_toplevel_info_v1"@,
            2,
        )),
{
    is_advertised(globals, "zcosmic_toplevel_manager_v1", 1) && is_advertised(
        globals,
        "zcosmic_toplevel_info_v1",
        2,
    )
}

/// A capabilities array holds `activate`.
pub open spec fn activation_in(capabilities: Seq<u8>, order: ByteOrder) -> bool {
    words(capabilities, 4, order).contains(2)
}

/// Whether a `zcosmic_toplevel_manager_v1.capabilities` array contains `activate`, in this
/// byte order. The array is a raw sequence of 32-bit enum values; only whole ones count.
pub fn can_activate_in(capabilities: &[u8], order: ByteOrder) -> (r: bool)
    ensures
        r == activation_in(capabilities@, order),
{
    holds_word(capabilities, 2, order)
}

/// Whether a `zcosmic_toplevel_manager_v1.capabilities` array contains `activate`, in the
/// host byte order.
///
/// A manager that does not advertise the capability ignores `activate`, so the caller
/// has to say the window cannot be focused instead of silently doing nothing.
pub fn can_activate(capabilities: &[u8]) -> (r: bool)
    ensures
        r == activation_in(capabilities@, ByteOrder::Little) || r == activation_in(
            capabilities@,
            ByteOrder::Big,
        ),
        activation_in(capabilities@, ByteOrder::Little) == activation_in(
            capabilities@,
            ByteOrder::Big,
        ) ==> r == activation_in(capabilities@, ByteOrder::Big),
{
    can_activate_in(capabilities, host_order())
}

/// Which of the advertised windows to activate: the one whose identifier is `identifier`.
///
/// `bound` says whether both COSMIC globals could be bound, and `honoured` whether the
/// manager honours `activate`; without either this is a compositor that cannot focus
/// windows, rather than a failure.
pub fn activate(bound: bool, honoured: bool, identifiers: &[&str], identifier: &str) -> (r: Result<
    usize,
    CaptureError,
>)
    ensures
        if !bound || !honoured {
            r matches Err(CaptureError::ActivationUnsupported)
        } else {
            match position_from(identifiers@, identifier@, 0) {
                Some(i) => r matches Ok(k) && k == i,
                None => failed_with(
                    r,
                    "window to activate not found: "@ + identifier@,
                    no_cause(),
                ),
            }
        },
{
    if !bound || !honoured {
        return Err(CaptureError::ActivationUnsupported);
    }
    match position_of(identifiers, identifier) {
        Some(i) => Ok(i),
        None => {
            let mut m = String::from_str("window to activate not found: ");
            m.append(identifier);
            Err(CaptureError::msg(m.as_str()))
        },
    }
}

/// The window that is activated has the identifier that was asked for, and is the first that has
/// it.
pub proof fn the_window_asked_for_is_activated(
    bound: bool,
    honoured: bool,
    identifiers: &[&str],
    identifier: &str,
    r: Result<usize, CaptureError>,
)
    requires
        call_ensures(activate, (bound, honoured, identifiers, identifier), r),
    ensures
        r matches Ok(k) ==> bound && honoured && k < identifiers@.len() && identifiers@[k as int]@
            == identifier@ && forall|j: int|
            0 <= j < k ==> (#[trigger] identifiers@[j])@ != identifier@,
        bound && honoured && r is Err ==> forall|j: int|
            0 <= j < identifiers@.len() ==> (#[trigger] identifiers@[j])@ != identifier@,
        r matches Err(CaptureError::ActivationUnsupported) <==> !bound || !honoured,
{
    position_is(identifiers@, identifier@, 0);
}

proof fn position_is(ids: Seq<&str>, identifier: Seq<char>, k: int)
    requires
        0 <= k,
    ensures
        match position_from(ids, identifier, k) {
            Some(i) => k <= i < ids.len() && ids[i]@ == identifier && forall|j: int|
                k <= j < i ==> (#[trigger] ids[j])@ != identifier,
            None => forall|j: int| k <= j < ids.len() ==> (#[trigger] ids[j])@ != identifier,
        },
    decreases ids.len() - k,
{
    if k < ids.len() && ids[k]@ != identifier {
        position_is(ids, identifier, k + 1);
    }
}

/// Windows can be activated where the capabilities hold the one that is numbered two.
pub proof fn activation_is_told_among_the_capabilities(
    capabilities: &[u8],
    little: bool,
    big: bool,
)
    requires
        call_ensures(can_activate_in, (capabilities, ByteOrder::Little), little),
        call_ensures(can_activate_in, (capabilities, ByteOrder::Big), big),
    ensures
        little <==> exists|i: int| #[trigger] crate::bytes::stands(capabilities@, i, 2, 0, 0, 0),
        big <==> exists|i: int| #[trigger] crate::bytes::stands(capabilities@, i, 0, 0, 0, 2),
{
    crate::bytes::small_words_are_mostly_nought(capabilities@, 2);
}

} // verus!
