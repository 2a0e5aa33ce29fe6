//! Small ledgers used to try out a deployment: an owner, a counter, a
//! greeting.

use crate::account::AccountId;
use vstd::prelude::*;

verus! {

/// An owner and a counter.
#[derive(Debug, PartialEq, Eq)]
pub struct MinimalContract {
    pub owner: AccountId,
    pub counter: u64,
}

impl Default for MinimalContract {
    fn default() -> (r: Self)
        ensures
            r.owner@ == "near"@,
            r.counter == 0,
    {
        MinimalContract { owner: AccountId::new("near"), counter: 0 }
    }
}

impl MinimalContract {
    /// A ledger of `owner` with the counter at zero.
    pub fn new(owner: AccountId) -> (r: MinimalContract)
        ensures
            r.owner == owner,
            r.counter == 0,
    {
        MinimalContract { owner, counter: 0 }
    }

    /// The owner.
    pub fn get_owner(&self) -> (r: AccountId)
        ensures
            r == self.owner,
    {
        self.owner.clone()
    }

    /// Counts one up.
    pub fn increment(&mut self)
        requires
            old(self).counter < u64::MAX,
        ensures
            final(self).counter == old(self).counter + 1,
            final(self).owner == old(self).owner,
    {
        self.counter = self.counter + 1;
    }

    /// The count.
    pub fn get_counter(&self) -> (r: u64)
        ensures
            r == self.counter,
    {
        self.counter
    }
}

/// An owner and nothing else.
#[derive(Debug, PartialEq, Eq)]
pub struct SimpleContract {
    pub owner: AccountId,
}

impl SimpleContract {
    /// A ledger of `owner`.
    pub fn new(owner: AccountId) -> (r: SimpleContract)
        ensures
            r.owner == owner,
    {
        SimpleContract { owner }
    }

    /// The owner.
    pub fn get_owner(&self) -> (r: AccountId)
        ensures
            r == self.owner,
    {
        self.owner.clone()
    }
}

/// A greeting that anyone may change.
#[derive(Debug, PartialEq, Eq)]
pub struct Contract {
    pub greeting: String,
}

impl Default for Contract {
    fn default() -> (r: Self)
        ensures
            r.greeting@ == "Hello"@,
    {
        Contract { greeting: "Hello".to_string() }
    }
}

impl Contract {
    /// The greeting.
    pub fn get_greeting(&self) -> (r: String)
        ensures
            r@ == self.greeting@,
    {
        self.greeting.clone()
    }

    /// Replaces the greeting.
    pub fn set_greeting(&mut self, greeting: String)
        ensures
            final(self).greeting == greeting,
    {
        self.greeting = greeting;
    }
}

} // verus!
