//! Verified core of the notes panel client: directory listings, keyboard
//! navigation through them, searching the note tree, the tab bar, the modal
//! alerts and the validation rules of the editing forms.

pub mod resource;
pub mod text;
pub mod sort;
pub mod tree;
pub mod search;
pub mod index;
pub mod navigation;
pub mod laws;
pub mod messages;
pub mod forms;
pub mod alerts;
pub mod node;
pub mod outcome;

use vstd::prelude::*;

verus! {

} // verus!
