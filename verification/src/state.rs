use vstd::prelude::*;

verus! {

/// Per-deployment configuration shared by every call.
///
/// Token identifiers are drawn from a fresh CSPRNG at each issuance, so no
/// process-wide generator state is kept here.
#[derive(Clone, Copy, Debug, PartialEq, Eq, Structural)]
pub struct ServerState {
    /// When false, every cache access is a pure passthrough to the store.
    pub use_cache: bool,
    /// Cache entry TTL in seconds, independent of token lifetime.
    pub cache_lifetime: u32,
    /// Lifetime in seconds granted to each issued token.
    pub token_lifetime: u64,
}

impl ServerState {
    pub fn new(use_cache: bool, cache_lifetime: u32, token_lifetime: u64) -> (r: Self)
        ensures
            r == (ServerState { use_cache, cache_lifetime, token_lifetime }),
    {
        ServerState { use_cache, cache_lifetime, token_lifetime }
    }
}

} // verus!
