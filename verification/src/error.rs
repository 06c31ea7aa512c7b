//! The error a run of the event loop ends in.

use std::fmt::{Debug, Display};
use vstd::prelude::*;
use vstd::string::to_string_from_display_ensures;

verus! {

/// The terminal error of a run.
#[derive(Debug, Clone, PartialEq, Eq)]
pub enum EventLoopError<E: Clone + Debug> {
    /// The event source itself failed; holds the description it gave of its
    /// error.
    Winit(String),
    /// A handler reported an error of the caller's own type.
    Custom(E),
}

impl<E: Clone + Debug> EventLoopError<E> {
    /// This error is the source error that carries a rendering of `err`, as
    /// `to_string` gives it.
    pub open spec fn describes<D: Display>(self, err: &D) -> bool {
        self matches EventLoopError::Winit(text) && to_string_from_display_ensures::<D>(err, text)
    }

    /// Wraps an error of the event source, keeping its description as data.
    pub fn from_source<D: Display>(err: &D) -> (r: Self)
        ensures
            r.describes(err),
    {
        EventLoopError::Winit(err.to_string())
    }
}

} // verus!
