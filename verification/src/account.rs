//! Identity of a caller, as the host reports it.

use vstd::prelude::*;

verus! {

/// The name under which the host knows an account. The market only ever
/// compares two of them; it gives the name itself no meaning.
#[derive(Debug, PartialEq, Eq)]
pub struct AccountId {
    pub name: String,
}

impl View for AccountId {
    type V = Seq<char>;

    open spec fn view(&self) -> Seq<char> {
        self.name@
    }
}

impl Clone for AccountId {
    fn clone(&self) -> (r: Self)
        ensures
            r == *self,
    {
        AccountId { name: self.name.clone() }
    }
}

impl AccountId {
    /// The account called `name`.
    pub fn new(name: &str) -> (r: AccountId)
        ensures
            r@ == name@,
    {
        AccountId { name: name.to_string() }
    }

    /// The account's name.
    pub fn as_str(&self) -> (r: &str)
        ensures
            r@ == self@,
    {
        self.name.as_str()
    }

    /// Whether both name the same account.
    pub fn is(&self, other: &AccountId) -> (r: bool)
        ensures
            r == (self@ == other@),
    {
        self.name == other.name
    }
}

/// The names of a run of accounts, in order.
pub open spec fn account_names(s: Seq<AccountId>) -> Seq<Seq<char>> {
    Seq::new(s.len(), |i: int| s[i]@)
}

/// The accounts of `list` without `who`.
pub open spec fn without_account(list: Seq<Seq<char>>, who: Seq<char>) -> Seq<Seq<char>> {
    if list.contains(who) {
        list.remove(choose|i: int| 0 <= i < list.len() && list[i] == who)
    } else {
        list
    }
}

/// Taking the one occurrence of an account out of a list without
/// duplicates leaves a list without duplicates, which is the list without
/// that account.
pub proof fn lemma_without_account(list: Seq<Seq<char>>, who: Seq<char>, k: int)
    requires
        list.no_duplicates(),
        0 <= k < list.len(),
        list[k] == who,
    ensures
        without_account(list, who) == list.remove(k),
        list.remove(k).no_duplicates(),
        !list.remove(k).contains(who),
{
    assert(list.contains(who));
    let c = choose|i: int| 0 <= i < list.len() && list[i] == who;
    assert(c == k);
    let after = list.remove(k);
    assert forall|a: int, b: int| 0 <= a < after.len() && 0 <= b < after.len() && a
        != b implies after[a] != after[b] by {
        let a0 = if a < k {
            a
        } else {
            a + 1
        };
        let b0 = if b < k {
            b
        } else {
            b + 1
        };
        assert(after[a] == list[a0]);
        assert(after[b] == list[b0]);
    }
    assert forall|i: int| 0 <= i < after.len() implies after[i] != who by {
        let i0 = if i < k {
            i
        } else {
            i + 1
        };
        assert(after[i] == list[i0]);
    }
}

/// The position of `who` in `list`, if they are in it.
pub fn find_account(list: &Vec<AccountId>, who: &AccountId) -> (r: Option<usize>)
    ensures
        match r {
            Some(k) => k < list.len() && list@[k as int]@ == who@ && account_names(
                list@,
            ).contains(who@),
            None => !account_names(list@).contains(who@),
        },
{
    let mut i: usize = 0;
    while i < list.len()
        invariant
            i <= list.len(),
            forall|j: int| 0 <= j < i ==> (#[trigger] list@[j])@ != who@,
        decreases list.len() - i,
    {
        if list[i].is(who) {
            assert(account_names(list@)[i as int] == who@);
            return Some(i);
        }
        i = i + 1;
    }
    assert forall|j: int| 0 <= j < account_names(list@).len() implies account_names(list@)[j]
        != who@ by {
        assert(account_names(list@)[j] == list@[j]@);
    }
    None
}

/// Whether no account occurs twice in `list`.
pub fn distinct_accounts(list: &Vec<AccountId>) -> (r: bool)
    ensures
        r == account_names(list@).no_duplicates(),
{
    let ghost names = account_names(list@);
    let mut i: usize = 0;
    while i < list.len()
        invariant
            i <= list.len(),
            names == account_names(list@),
            forall|a: int, b: int| 0 <= a < b < i ==> names[a] != names[b],
        decreases list.len() - i,
    {
        let mut j: usize = 0;
        while j < i
            invariant
                j <= i,
                i < list.len(),
                names == account_names(list@),
                forall|a: int| 0 <= a < j ==> names[a] != names[i as int],
            decreases i - j,
        {
            if list[j].is(&list[i]) {
                assert(names[j as int] == names[i as int]);
                return false;
            }
            j = j + 1;
        }
        i = i + 1;
    }
    assert forall|a: int, b: int| 0 <= a < names.len() && 0 <= b < names.len() && a
        != b implies names[a] != names[b] by {
        if a < b {
        } else {
            assert(names[b] != names[a]);
        }
    }
    true
}

} // verus!
