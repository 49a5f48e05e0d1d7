//! Editing a branch's recent history: an undoable session of edits to commit
//! metadata, deletions and reordering, and the plan that rewrites the branch
//! from it.
use vstd::prelude::*;

pub mod commit;
pub mod error;
pub mod rewrite;
pub mod state;
pub mod summary;
pub mod text;
pub mod validation;
pub mod widgets;

verus! {

} // verus!
