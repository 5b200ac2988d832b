//! REST API keys which authenticate a caller to a specific appliance.

use vstd::prelude::*;
use vstd::string::StrSliceExecFns;

use crate::error::Error;
use crate::json::{chars_to_string, push_str_chars, str_eq};
use crate::text::{trim, trim_spec};

verus! {

/// The scheme and parameter name in front of the key in an `Authorization`
/// header value.
pub open spec fn header_prefix() -> Seq<char> {
    "ExtraHop apikey="@
}

/// A REST API key which authenticates the caller to the appliance.
///
/// Clients must pass an API key in the `Authorization` header of every
/// request; the appliance client type does this automatically. As a best
/// practice, API keys should be collected from the user at runtime or stored
/// outside the source code.
#[derive(Debug, Clone)]
pub struct ApiKey(String);

impl View for ApiKey {
    type V = Seq<char>;

    closed spec fn view(&self) -> Seq<char> {
        self.0@
    }
}

impl ApiKey {
    /// Creates a new `ApiKey`. This removes any leading or trailing
    /// whitespace.
    pub fn new(key: &str) -> (r: Self)
        ensures
            r@ == trim_spec(key@),
    {
        ApiKey(trim(key))
    }

    /// Converts the API key to the value of an `Authorization` header:
    /// `ExtraHop apikey=` followed by the key.
    pub fn to_header(&self) -> (r: String)
        ensures
            r@ == header_prefix() + self@,
    {
        let mut out: Vec<char> = Vec::new();
        push_str_chars(&mut out, "ExtraHop apikey=");
        push_str_chars(&mut out, self.0.as_str());
        chars_to_string(&out)
    }

    /// Parses a full `Authorization` header value of the form
    /// `ExtraHop apikey=<key>`. Anything without that exact prefix is an
    /// `ApiKeyParse` error; every leading repetition of the prefix is
    /// stripped before the key is taken. This is not the way to build a
    /// key from a bare string, which is what `ApiKey::new` does.
    pub fn parse_header(s: &str) -> (r: Result<ApiKey, Error>)
        ensures
            match r {
                Result::Ok(k) => s@.len() >= header_prefix().len() && s@.subrange(
                    0,
                    header_prefix().len() as int,
                ) == header_prefix() && k@ == trim_spec(strip_header_prefixes(s@)),
                Result::Err(e) => (s@.len() < header_prefix().len() || s@.subrange(
                    0,
                    header_prefix().len() as int,
                ) != header_prefix()) && e is ApiKeyParse,
            },
    {
        proof {
            reveal_strlit("ExtraHop apikey=");
        }
        let mut n = s.unicode_len();
        if n < 16 {
            return Result::Err(Error::ApiKeyParse);
        }
        let head = s.substring_char(0, 16);
        if !str_eq(head, "ExtraHop apikey=") {
            return Result::Err(Error::ApiKeyParse);
        }
        let mut rest: &str = s;
        loop
            invariant
                n == rest@.len(),
                strip_header_prefixes(s@) == strip_header_prefixes(rest@),
            ensures
                strip_header_prefixes(s@) == strip_header_prefixes(rest@),
                rest@.len() < 16 || rest@.subrange(0, 16) != header_prefix(),
            decreases rest@.len(),
        {
            proof {
                reveal_strlit("ExtraHop apikey=");
            }
            if n < 16 {
                break ;
            }
            let head = rest.substring_char(0, 16);
            if !str_eq(head, "ExtraHop apikey=") {
                break ;
            }
            let stripped = rest.substring_char(16, n);
            proof {
                assert(rest@.subrange(16, n as int) =~= rest@.skip(16));
            }
            rest = stripped;
            n = n - 16;
        }
        proof {
            assert(strip_header_prefixes(rest@) == rest@);
        }
        Result::Ok(ApiKey::new(rest))
    }
}

/// A header value with every leading repetition of the scheme-and-name
/// prefix removed.
pub open spec fn strip_header_prefixes(s: Seq<char>) -> Seq<char>
    decreases s.len(),
{
    if header_prefix().len() > 0 && s.len() >= header_prefix().len() && s.subrange(
        0,
        header_prefix().len() as int,
    ) == header_prefix() {
        strip_header_prefixes(s.skip(header_prefix().len() as int))
    } else {
        s
    }
}

impl core::str::FromStr for ApiKey {
    type Err = Error;

    /// Parses a full HTTP header value; see `ApiKey::parse_header`.
    fn from_str(s: &str) -> Result<ApiKey, Error> {
        ApiKey::parse_header(s)
    }
}

impl PartialEq for ApiKey {
    fn eq(&self, other: &Self) -> (r: bool) {
        self.0 == other.0
    }
}

impl vstd::std_specs::cmp::PartialEqSpecImpl for ApiKey {
    open spec fn obeys_eq_spec() -> bool {
        true
    }

    open spec fn eq_spec(&self, other: &Self) -> bool {
        self@ == other@
    }
}

} // verus!
