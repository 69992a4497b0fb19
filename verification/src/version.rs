//! The version the tools report.

use crate::text::{chars_of, slice_chars, string_of};
use vstd::prelude::*;
use vstd::string::*;

verus! {

/// The version of a description of the commit.
pub open spec fn described(describe: Seq<char>, pkg_version: Seq<char>) -> Seq<char> {
    if describe.len() > 0 && describe[0] == 'v' {
        describe.skip(1)
    } else {
        pkg_version + "-g"@ + describe
    }
}

/// Turn a description of the commit into the reported version: a release tag loses its `v`
/// (`v1.9.0-17-g7a434c1` gives `1.9.0-17-g7a434c1`), and a bare hash, with no tag reachable,
/// is appended to `pkg_version` (`7a434c1` gives `1.9.0-g7a434c1`).
pub fn version_from_describe(describe: &str, pkg_version: &str) -> (r: String)
    ensures
        r@ == described(describe@, pkg_version@),
{
    let d = chars_of(describe);
    if d.len() > 0 && d[0] == 'v' {
        let rest = slice_chars(d.as_slice(), 1, d.len());
        assert(rest@ =~= describe@.skip(1));
        return string_of(rest.as_slice());
    }
    let mut out = String::from_str(pkg_version);
    out.append("-g");
    out.append(describe);
    out
}

/// A tag's version is the tag without its letter; what is not tagged is the package's version,
/// and the commit after it.
pub proof fn a_tag_is_its_version(tag: Seq<char>, commit: &str, pkg: &str, r: String)
    requires
        call_ensures(version_from_describe, (commit, pkg), r),
    ensures
        commit@ == seq!['v'] + tag ==> r@ == tag,
        commit@.len() > 0 && commit@[0] != 'v' ==> r@.len() == pkg@.len() + 2 + commit@.len()
            && r@.take(pkg@.len() as int) == pkg@ && r@.skip((pkg@.len() + 2) as int) == commit@,
{
    reveal_strlit("-g");
    if commit@ == seq!['v'] + tag {
        assert(commit@.skip(1) =~= tag);
    } else if commit@.len() > 0 && commit@[0] != 'v' {
        assert(r@.take(pkg@.len() as int) =~= pkg@);
        assert(r@.skip((pkg@.len() + 2) as int) =~= commit@);
    }
}

} // verus!
