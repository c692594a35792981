use vstd::prelude::*;

verus! {

/// Liveness probe: always reports a healthy service.
pub fn health() -> (r: &'static str)
    ensures
        r@ == "healthy\n"@,
{
    "healthy\n"
}

} // verus!
