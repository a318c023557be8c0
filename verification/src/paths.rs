//! The one place the library leans on an outside crate for path
//! arithmetic: relative paths between two output locations.
use vstd::prelude::*;

verus! {

/// What `pathdiff::diff_paths` returns for a pair of path strings: the
/// relative path that reaches `path` from the directory `base`, or
/// nothing when no such path exists. The result is a function of the two
/// arguments alone; no file system state enters into it.
pub uninterp spec fn rel_path_of(path: Seq<char>, base: Seq<char>) -> Option<Seq<char>>;

/// Relies on `pathdiff::diff_paths`: the relative path from `base` to
/// `path`, computed from the two strings alone.
#[verifier::external_body]
pub(crate) fn diff_paths_str(path: &str, base: &str) -> (r: Option<String>)
    ensures
        match rel_path_of(path@, base@) {
            Some(p) => r matches Some(s) && s@ == p,
            None => r is None,
        },
{
    pathdiff::diff_paths(path, base).and_then(|p| p.to_str().map(|s| s.to_owned()))
}

} // verus!
