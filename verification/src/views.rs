//! The states of the views and the arithmetic of laying them out. Nothing
//! here paints.
pub mod debug;
pub mod edit;
pub mod grid;
pub mod palette;
pub mod table;

use std::ops::ControlFlow;
use vstd::prelude::*;

verus! {

/// Temporary interactive widget that takes control of input.
pub trait Dialog<I> {
    /// What the dialog ends with.
    type Output;

    /// Whether the dialog is fit to take input.
    spec fn ready(&self) -> bool;

    /// Whether `next` and `flow` are what the input makes of the dialog
    /// and what the dialog answers.
    spec fn steps(&self, input: I, next: &Self, flow: ControlFlow<Self::Output>) -> bool;

    /// called until it returns `Break(Output)`
    fn handle_input(&mut self, input: I) -> (flow: ControlFlow<Self::Output>)
        requires
            old(self).ready(),
        ensures
            final(self).ready(),
            old(self).steps(input, final(self), flow),
    ;
}

} // verus!
