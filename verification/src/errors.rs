//! Errors of the passes and of the scene.

use vstd::prelude::*;

verus! {

/// A pass cannot run with what the frame provides.
#[derive(Clone, Copy, Debug)]
pub enum PassError {
    /// An input that the pass needs is missing; the text says which.
    InvalidPassConfig(&'static str),
}

/// An operation on the scene was refused.
#[derive(Clone, Copy, Debug)]
pub enum SceneError {
    /// The handle refers to no live resource of the named kind.
    InvalidHandle(&'static str),
}

} // verus!
