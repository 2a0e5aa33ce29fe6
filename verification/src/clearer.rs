//! A stand-in ledger for resets: it holds no state at all.

use vstd::prelude::*;

verus! {

/// A ledger without state. Put in the market's place it reads none of the
/// stored records, so a store that can no longer be read can be replaced.
#[derive(Clone, Copy, Debug, Default, PartialEq, Eq, Structural)]
pub struct StateClearer {}

impl StateClearer {
    /// The stateless ledger.
    pub fn new() -> (r: StateClearer)
        ensures
            r == (StateClearer {  }),
    {
        StateClearer {  }
    }

    /// The fixed answer that shows the stand-in is in place.
    pub fn ping(&self) -> (r: String)
        ensures
            r@ == "State clearer is active"@,
    {
        "State clearer is active".to_string()
    }
}

} // verus!
