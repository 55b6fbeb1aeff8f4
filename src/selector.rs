use crate::random::{draw_initial, draw_rank, seeded_rng};
use crate::registry::{RegistryReply, SymbolSearch, STATUS_SUCCESS};
use rand::rngs::StdRng;
use vstd::prelude::*;

verus! {

/// Why no secret word could be chosen.
#[derive(Debug, Clone, PartialEq, Eq)]
pub enum SelectError {
    /// The registry could not be queried, or reported a failed search.
    LookupFailure(String),
    /// The registry found nothing to choose from.
    NoSymbolFound,
}

/// Whether a search answered successfully with at least one hit, so that a
/// rank can be drawn from it.
pub open spec fn drawable(s: SymbolSearch) -> bool {
    s.status == STATUS_SUCCESS && s.num_found >= 1
}

/// The symbol at 1-based `rank` of a search, if the search is drawable, the
/// rank is within its hit count and the registry returned that many symbols.
pub open spec fn ranked_symbol(s: SymbolSearch, rank: int) -> Option<Seq<char>> {
    if drawable(s) && 1 <= rank <= s.num_found && rank - 1 < s.symbols@.len() {
        Some(s.symbols@[rank - 1]@)
    } else {
        None
    }
}

/// Whether the reply is a search from which a rank is drawn.
pub open spec fn reply_drawable(reply: RegistryReply) -> bool {
    reply matches RegistryReply::Answered(s) && drawable(s)
}

/// The hit count of an answered reply.
pub open spec fn reply_hits(reply: RegistryReply) -> int {
    match reply {
        RegistryReply::Answered(s) => s.num_found as int,
        RegistryReply::Failed(_) => 0,
    }
}

/// The number of symbols an answered reply returned.
pub open spec fn reply_returned(reply: RegistryReply) -> int {
    match reply {
        RegistryReply::Answered(s) => s.symbols@.len() as int,
        RegistryReply::Failed(_) => 0,
    }
}

/// What a selection yields for a reply and a drawn rank.
pub open spec fn picks(r: Result<String, SelectError>, reply: RegistryReply, rank: int) -> bool {
    match reply {
        RegistryReply::Failed(m) => r matches Err(SelectError::LookupFailure(e)) && e@ == m@,
        RegistryReply::Answered(s) => if s.status != STATUS_SUCCESS {
            r matches Err(SelectError::LookupFailure(e)) && e@ == failed_search_message()
        } else {
            match ranked_symbol(s, rank) {
                Some(w) => r matches Ok(v) && v@ == w,
                None => r matches Err(SelectError::NoSymbolFound),
            }
        },
    }
}

/// The message carried by a lookup failure that the registry itself reported.
pub open spec fn failed_search_message() -> Seq<char> {
    "registry reported a failed search"@
}

/// The message that tells that no symbol was found.
pub open spec fn no_symbol_message() -> Seq<char> {
    "No gene symbol found"@
}

impl SelectError {
    /// A readable account of the error.
    pub fn message(&self) -> (r: String)
        ensures
            self matches SelectError::LookupFailure(m) ==> r@ == m@,
            self is NoSymbolFound ==> r@ == no_symbol_message(),
    {
        match self {
            SelectError::LookupFailure(m) => m.clone(),
            SelectError::NoSymbolFound => "No gene symbol found".to_string(),
        }
    }
}

/// Chooses the symbol at 1-based `rank` from a prefix search.
pub fn pick_symbol(reply: &RegistryReply, rank: usize) -> (r: Result<String, SelectError>)
    ensures
        picks(r, *reply, rank as int),
{
    match reply {
        RegistryReply::Failed(m) => Err(SelectError::LookupFailure(m.clone())),
        RegistryReply::Answered(s) => {
            if s.status != STATUS_SUCCESS {
                Err(SelectError::LookupFailure("registry reported a failed search".to_string()))
            } else if s.num_found >= 1 && 1 <= rank && rank <= s.num_found && rank - 1 < s.symbols.len() {
                Ok(s.symbols[rank - 1].clone())
            } else {
                Err(SelectError::NoSymbolFound)
            }
        },
    }
}

/// Starts the selection for a seed: seeds the generator and draws the initial
/// letter that the registry is then searched for as a prefix.
pub fn start_selection(seed: u64) -> (r: (StdRng, char))
    ensures
        'A' <= r.1 <= 'Z',
{
    let mut rng = seeded_rng(seed);
    let b = draw_initial(&mut rng);
    (rng, b as char)
}

/// Finishes the selection from the prefix search's reply, drawing the rank
/// from the same generator stream that drew the initial letter.
pub fn finish_selection(rng: &mut StdRng, reply: &RegistryReply) -> (r: Result<String, SelectError>)
    ensures
        reply_drawable(*reply) ==> exists|rank: int|
            1 <= rank <= reply_hits(*reply) && #[trigger] picks(r, *reply, rank),
        !reply_drawable(*reply) ==> picks(r, *reply, 0),
        reply_drawable(*reply) && reply_hits(*reply) <= reply_returned(*reply) ==> r is Ok,
{
    match reply {
        RegistryReply::Answered(s) => {
            if s.status == STATUS_SUCCESS && s.num_found >= 1 {
                let rank = draw_rank(rng, s.num_found);
                let r = pick_symbol(reply, rank);
                assert(picks(r, *reply, rank as int));
                r
            } else {
                pick_symbol(reply, 0)
            }
        },
        RegistryReply::Failed(_) => pick_symbol(reply, 0),
    }
}

} // verus!
