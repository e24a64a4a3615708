//! The update that was found, kept until the user asks to install it.
use vstd::prelude::*;

verus! {

/// Holds the updater that found an update.
pub struct UpdateSession<T> {
    updater: T,
}

impl<T> View for UpdateSession<T> {
    type V = T;

    closed spec fn view(&self) -> T {
        self.updater
    }
}

impl<T> UpdateSession<T> {
    pub fn new(updater: T) -> (r: Self)
        ensures
            r@ == updater,
    {
        UpdateSession { updater }
    }

    /// Gives back the updater. The session's type fixes the updater's type, so this
    /// always succeeds.
    pub fn extract(self) -> (r: Result<T, Self>)
        ensures
            r == Ok::<T, Self>(self@),
    {
        Ok(self.updater)
    }

    /// The updater, borrowed.
    pub fn as_ref_concrete(&self) -> (r: Option<&T>)
        ensures
            r == Some(&self@),
    {
        Some(&self.updater)
    }
}

} // verus!
