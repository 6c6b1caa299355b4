use vstd::prelude::*;
use crate::resource::Resource;

verus! {

/// One entry of a directory listing of the notes tree: a file, or a
/// directory whose own listing may still be loading. The server keys a
/// listing by name, so the names of one listing are distinct; the functions
/// of this crate state their results exactly whether or not they are.
#[derive(PartialEq)]
pub struct TreeEntry {
    pub name: String,
    pub dir: bool,
    pub children: Resource<Vec<TreeEntry>>,
}

} // verus!
