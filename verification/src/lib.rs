//! A reactive rendering runtime in the model-update-view style: an
//! application holds a state value, folds incoming messages into it, and
//! describes the desired tree for each state; the runtime delivers
//! messages exactly once in order, re-renders once per cycle, and
//! reconciles the new description against the previous one with the
//! fewest mutations of the live tree.
//!
//! The live document tree itself is an external capability; the library
//! works on a model of it ([`dom`]), and a thin host mirrors that model
//! into the real document.

use vstd::prelude::*;

pub mod application;
pub mod dom;
pub mod property;
pub mod vnode;

verus! {

} // verus!
