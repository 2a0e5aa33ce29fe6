//! What the host reports of the payment that comes with a call.

use crate::amount::SafeAmount;
use vstd::prelude::*;

verus! {

/// What the host reports of the payment that comes with a call.
#[derive(Clone, Copy, Debug, PartialEq, Eq, Structural)]
pub struct Payment {
    /// The value sent along with the call.
    pub attached_deposit: SafeAmount,
    /// The bytes of storage that the call adds.
    pub storage_used: u64,
    /// The price of one byte of storage.
    pub storage_byte_cost: SafeAmount,
}

impl Payment {
    /// The cost of the storage that the call adds.
    pub open spec fn storage_cost(self) -> nat {
        self.storage_used as nat * self.storage_byte_cost@
    }
}

} // verus!
