//! The handle by which a parked ticker or a spawned task is woken.

use std::task::Waker;
use vstd::prelude::*;

verus! {

/// `std::task::Waker`, carried through the scheduler as an opaque value.
/// The scheduler stores wakers and hands them out; it never invokes one.
#[verifier::external_type_specification]
#[verifier::external_body]
pub struct ExWaker(Waker);

} // verus!
