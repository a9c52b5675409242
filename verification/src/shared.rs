//! Shared handles: what the verifier is told about `Rc`.

use std::rc::Rc;
use vstd::prelude::*;

verus! {

/// Another handle to the same allocation, by `Rc::clone`. The standard
/// library documents that the new handle points at the allocation that the
/// given one points at, so the value behind both is the same. This contract
/// is taken on trust.
#[verifier::external_body]
pub(crate) fn share<T>(handle: &Rc<T>) -> (copy: Rc<T>)
    ensures
        copy == *handle,
{
    Rc::clone(handle)
}

} // verus!
