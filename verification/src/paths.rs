//! Path display through the `cli_boilerplate_automation` path helpers.

use cba::bath::PathExt;
use vstd::prelude::*;

verus! {

/// The display of `path` with the directory `home` abbreviated to `~`.
pub uninterp spec fn short_path(path: Seq<char>, home: Seq<char>) -> Seq<char>;

/// `PathExt::display_short`: `path` with a leading `home` (by whole
/// components) replaced by `~` (the home directory itself shows as `~/`),
/// otherwise `path` as it is.
#[verifier::external_body]
pub(crate) fn display_short(path: &str, home: &str) -> (r: String)
    ensures
        r@ == short_path(path@, home@),
{
    std::path::Path::new(path).display_short(std::path::Path::new(home))
}

/// The final component of `path`, or the whole path when it has none.
pub uninterp spec fn base_name(path: Seq<char>) -> Seq<char>;

/// `PathExt::basename`: the file name of `path`, or `path` itself when it
/// ends in a root or `..`.
#[verifier::external_body]
pub(crate) fn basename(path: &str) -> (r: String)
    ensures
        r@ == base_name(path@),
{
    std::path::Path::new(path).basename()
}

} // verus!
