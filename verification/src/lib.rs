//! Class-based enter, move and leave transitions for the children of a keyed
//! list, with the elements that they touch modelled as plain values.
//!
//! - `class_names`: splitting a class prop into class names.
//! - `class_list`: an element's class list as an ordered set, and what adding
//!   and removing class names does to it.
//! - `element`: the model of an element and the `AnimatedEl` operations on it.
//! - `untracked_classes`: the enter-from, enter, move and leave classes.
//! - `animator`: the transitions and their pending cleanups.
//! - `registry`: the rendered children by key, split on a new rendering.
//! - `laws`: what holds across these operations.
pub mod class_names;
pub mod class_list;
pub mod element;
pub mod untracked_classes;
pub mod animator;
pub mod registry;
pub mod laws;

pub use animator::Animator;
pub use element::{AnimatedEl, ElementModel};
pub use untracked_classes::UntrackedClasses;
