//! Canonical identifiers for appliance users.

use vstd::prelude::*;

use crate::text::{trim, trim_spec};

verus! {

/// Canonical ID for an appliance user.
#[derive(Debug, Clone, Hash)]
pub struct Username(String);

impl View for Username {
    type V = Seq<char>;

    closed spec fn view(&self) -> Seq<char> {
        self.0@
    }
}

impl Username {
    /// Creates and canonicalizes a username: surrounding whitespace is
    /// removed.
    pub fn new(name: &str) -> (r: Self)
        ensures
            r@ == trim_spec(name@),
    {
        Username(trim(name))
    }

    /// Gets the username as a JSON-suitable string.
    pub fn as_str(&self) -> (r: &str)
        ensures
            r@ == self@,
    {
        self.0.as_str()
    }
}

impl PartialEq for Username {
    fn eq(&self, other: &Self) -> (r: bool) {
        self.0 == other.0
    }
}

impl vstd::std_specs::cmp::PartialEqSpecImpl for Username {
    open spec fn obeys_eq_spec() -> bool {
        true
    }

    open spec fn eq_spec(&self, other: &Self) -> bool {
        self@ == other@
    }
}

} // verus!
