//! A transparent wrapper for one leg's transport. The conveyor's unverified
//! engine implements its stream interfaces on a mirror of this type; the
//! wrapper itself only carries the transport through.

use vstd::prelude::*;

verus! {

/// Carries a transport unchanged.
pub struct Compat<T>(pub T);

/// Wraps a transport.
pub fn compat<T>(x: T) -> (r: Compat<T>)
    ensures
        r.0 == x,
{
    Compat(x)
}

} // verus!
