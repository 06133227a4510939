//! Account identifiers.
//!
//! The ledger treats an identifier as an opaque piece of text: two identifiers
//! name the same account exactly when their text is equal.  Whether the text is
//! well formed is decided by whoever hands it in.

use vstd::prelude::*;
use vstd::string::*;

verus! {

/// The name of an account.  Its view is the text of the name.
#[derive(Debug, PartialEq, Eq, Hash)]
pub struct AccountId {
    name: String,
}

impl View for AccountId {
    type V = Seq<char>;

    closed spec fn view(&self) -> Seq<char> {
        self.name@
    }
}

impl Clone for AccountId {
    fn clone(&self) -> (res: Self)
        ensures
            res@ == self@,
    {
        AccountId { name: self.name.clone() }
    }
}

impl AccountId {
    /// An identifier with the given text.
    pub fn new(name: &str) -> (id: AccountId)
        ensures
            id@ == name@,
    {
        AccountId { name: String::from_str(name) }
    }

    /// The text of the identifier.
    pub fn as_str(&self) -> (name: &str)
        ensures
            name@ == self@,
    {
        self.name.as_str()
    }

    /// Whether two identifiers name the same account.
    pub fn same(&self, other: &AccountId) -> (same: bool)
        ensures
            same == (self@ == other@),
    {
        self.name == other.name
    }
}

} // verus!
