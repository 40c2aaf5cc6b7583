use vstd::prelude::*;

verus! {

/// A Stellar account or contract address, held by its strkey text
/// (`G...` for an account, `C...` for a contract).
#[derive(Debug)]
pub struct Address {
    strkey: String,
}

impl View for Address {
    type V = Seq<char>;

    closed spec fn view(&self) -> Seq<char> {
        self.strkey@
    }
}

impl Address {
    /// The address whose strkey text is `strkey`.
    pub fn from_string(strkey: String) -> (a: Address)
        ensures
            a@ == strkey@,
    {
        Address { strkey }
    }

    /// The strkey text of this address.
    pub fn as_string(&self) -> (s: String)
        ensures
            s@ == self@,
    {
        self.strkey.clone()
    }
}

impl Clone for Address {
    fn clone(&self) -> (a: Self)
        ensures
            a == *self,
    {
        Address { strkey: self.strkey.clone() }
    }
}

impl PartialEq for Address {
    fn eq(&self, other: &Self) -> (same: bool) {
        self.strkey == other.strkey
    }
}

impl vstd::std_specs::cmp::PartialEqSpecImpl for Address {
    open spec fn obeys_eq_spec() -> bool {
        true
    }

    open spec fn eq_spec(&self, other: &Address) -> bool {
        self@ == other@
    }
}

impl Eq for Address {
}

} // verus!
