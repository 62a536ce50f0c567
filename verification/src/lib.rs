//! The core of a local note-taking backend.
//!
//! It resolves the workspace directory from three sources (a cache, a persisted setting, a
//! default), guards file names against leaving that directory, lists the markdown files of
//! a directory, and renders markdown as sanitized HTML. The library performs no input or
//! output itself: where an operation needs the outside world, it proceeds in steps, each
//! of which tells the caller what to look up and takes the answer as the next event.

use vstd::prelude::*;

pub mod error;
pub mod listing;
pub mod markdown;
pub mod path_guard;
pub mod resolver;
pub mod state;
pub mod text;

verus! {

} // verus!
