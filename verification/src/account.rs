use vstd::prelude::*;

verus! {

/// The identity of an account (a learner or an instructor), held as the
/// account's public string key.
#[derive(Debug, PartialEq, Eq)]
pub struct AccountId(pub String);

impl View for AccountId {
    type V = Seq<char>;

    open spec fn view(&self) -> Seq<char> {
        self.0@
    }
}

impl Clone for AccountId {
    fn clone(&self) -> (copy: Self)
        ensures
            copy == *self,
    {
        AccountId(self.0.clone())
    }
}

impl AccountId {
    /// Whether two identities name the same account.
    pub fn same_as(&self, other: &AccountId) -> (same: bool)
        ensures
            same == (self@ == other@),
    {
        self.0 == other.0
    }
}

} // verus!
