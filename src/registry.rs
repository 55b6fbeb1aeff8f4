use vstd::prelude::*;

verus! {

/// The body of a successful symbol search: the registry's own status code
/// (zero means success), its hit count and the symbols it returned, in order.
pub struct SymbolSearch {
    pub status: usize,
    pub num_found: usize,
    pub symbols: Vec<String>,
}

/// What a registry query came back with.
pub enum RegistryReply {
    /// The transport failed, the HTTP status was not a success, or the payload
    /// did not parse; the message says which.
    Failed(String),
    /// A parsed search result.
    Answered(SymbolSearch),
}

/// The status code with which the registry reports a successful search.
pub const STATUS_SUCCESS: usize = 0;

} // verus!
