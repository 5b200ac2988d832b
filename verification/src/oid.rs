//! Opaque numeric identifiers for appliance metric sources.

use vstd::prelude::*;

use crate::json::{chars_to_string, dec_str, write_u64_dec};

verus! {

/// A metric source ID.
#[derive(Debug, Clone, Copy, PartialEq, Eq, Hash, Structural)]
pub struct Oid(u64);

impl Oid {
    /// The numeric value behind the identifier.
    pub closed spec fn id(self) -> u64 {
        self.0
    }

    /// The OID holding a given numeric value.
    pub closed spec fn new_spec(id: u64) -> Oid {
        Oid(id)
    }

    /// Creates a new OID.
    pub fn new(id: u64) -> (r: Self)
        ensures
            r.id() == id,
            r == Oid::new_spec(id),
    {
        Oid(id)
    }

    /// The numeric value of the OID.
    pub fn as_u64(&self) -> (r: u64)
        ensures
            r == self.id(),
    {
        self.0
    }

    /// Gets a representation of the OID for use in a URL path: its canonical
    /// decimal form.
    pub fn as_url_part(&self) -> (r: String)
        ensures
            r@ == dec_str(self.id() as nat),
    {
        let mut out: Vec<char> = Vec::new();
        write_u64_dec(&mut out, self.0);
        chars_to_string(&out)
    }
}

/// An OID is exactly its numeric value: building one from a value yields
/// that value back, and rebuilding an OID from its own value changes
/// nothing.
pub proof fn lemma_oid_value(id: u64, o: Oid)
    ensures
        Oid::new_spec(id).id() == id,
        Oid::new_spec(o.id()) == o,
{
}

} // verus!
