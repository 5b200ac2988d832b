//! Canonical identifiers for user groups.

use vstd::prelude::*;

verus! {

/// Canonical ID for a user group.
///
/// User groups are identified by their type and provider-assigned ID;
/// LDAP groups are represented as `remote.group-name`.
#[derive(Debug, Clone, Hash)]
pub struct UserGroupId(String);

impl View for UserGroupId {
    type V = Seq<char>;

    closed spec fn view(&self) -> Seq<char> {
        self.0@
    }
}

impl UserGroupId {
    /// Creates a canonicalized user group ID.
    pub fn new(id: &str) -> (r: Self)
        ensures
            r@ == id@,
    {
        UserGroupId(id.to_owned())
    }

    /// Gets the group ID as a string.
    pub fn as_str(&self) -> (r: &str)
        ensures
            r@ == self@,
    {
        self.0.as_str()
    }
}

impl PartialEq for UserGroupId {
    fn eq(&self, other: &Self) -> (r: bool) {
        self.0 == other.0
    }
}

impl vstd::std_specs::cmp::PartialEqSpecImpl for UserGroupId {
    open spec fn obeys_eq_spec() -> bool {
        true
    }

    open spec fn eq_spec(&self, other: &Self) -> bool {
        self@ == other@
    }
}

} // verus!
