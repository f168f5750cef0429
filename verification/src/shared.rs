//! Shared ownership of immutable values.

use vstd::prelude::*;
use std::rc::Rc;

verus! {

/// Calls `Rc::clone`, which makes another pointer to the same value: the
/// result points to what `rc` points to.
#[verifier::external_body]
pub(crate) fn share<T>(rc: &Rc<T>) -> (r: Rc<T>)
    ensures
        r == *rc,
{
    Rc::clone(rc)
}

} // verus!
