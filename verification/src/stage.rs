//! Staging: what is added to the index.

use vstd::prelude::*;
use crate::text::string_views;

verus! {

/// The patterns that stage every change and every untracked file: the one
/// pattern that stands for the whole working tree.
pub fn add_all() -> (pathspecs: Vec<String>)
    ensures
        string_views(pathspecs@) == seq!["."@],
{
    let mut pathspecs: Vec<String> = Vec::new();
    pathspecs.push(String::from_str("."));
    assert(string_views(pathspecs@) =~= seq!["."@]);
    pathspecs
}

} // verus!
