//! Lifecycle of a long-lived component.

use crate::errors::CommonError;
use vstd::prelude::*;

verus! {

/// A component with an explicit lifecycle: `start` must bind its
/// resources and begin any background work before returning; `close`
/// must release them, tolerating an already-closed state.
pub trait Stateful {
    fn start(&mut self) -> Result<(), CommonError>;

    fn close(&mut self) -> Result<(), CommonError>;
}

} // verus!
