//! Types for handling errors.

use vstd::prelude::*;

use crate::json::{json_of_text, obj_get, JVal, Json};

verus! {

/// An error encountered while using the library.
#[derive(Debug, Clone)]
pub enum Error {
    /// An application-level error reported by the REST API.
    Rest(RestError),
    /// A host or path that does not form a valid URL.
    Url,
    /// A payload that did not match the expected shape.
    Decode,
    /// A string that was not a complete API-key header including
    /// `ExtraHop apikey=`.
    ApiKeyParse,
}

/// An application-level error returned by the REST API: the numeric HTTP
/// status and, when the error body decoded, its human-friendly message.
#[derive(Debug, Clone)]
pub struct RestError {
    status: u16,
    message: Option<String>,
}

impl RestError {
    /// The HTTP status the error carries.
    pub closed spec fn status_spec(self) -> u16 {
        self.status
    }

    /// The decoded message, if one was available.
    pub closed spec fn message_spec(self) -> Option<Seq<char>> {
        match self.message {
            Option::Some(m) => Option::Some(m@),
            Option::None => Option::None,
        }
    }

    /// Create a new `RestError` with the specified status code and
    /// human-friendly message. Only a 4xx or 5xx code is accepted.
    pub fn new(status: u16, message: Option<String>) -> (r: Self)
        requires
            400 <= status <= 599,
        ensures
            r.status_spec() == status,
            r.message_spec() == match message {
                Option::Some(m) => Option::Some(m@),
                Option::None => Option::<Seq<char>>::None,
            },
    {
        RestError { status, message }
    }

    /// A constructor for response validation, which classifies every status
    /// outside the 2xx range as an application error.
    pub(crate) fn from_status(status: u16, message: Option<String>) -> (r: Self)
        requires
            status < 200 || status >= 300,
        ensures
            r.status_spec() == status,
            r.message_spec() == match message {
                Option::Some(m) => Option::Some(m@),
                Option::None => Option::<Seq<char>>::None,
            },
    {
        RestError { status, message }
    }

    /// Get the status code associated with the REST error.
    pub fn status(&self) -> (r: u16)
        ensures
            r == self.status_spec(),
    {
        self.status
    }

    /// Get the message returned by the system, if one is available.
    pub fn message(&self) -> (r: Option<&str>)
        ensures
            match r {
                Option::Some(m) => self.message_spec() == Option::Some(m@),
                Option::None => self.message_spec() is None,
            },
    {
        match &self.message {
            Option::Some(m) => Option::Some(m.as_str()),
            Option::None => Option::None,
        }
    }
}

/// The body of an HTTP error response from the appliance.
#[derive(Debug, Clone)]
pub struct ErrorBody {
    error_message: String,
}

impl ErrorBody {
    /// The message carried by the body.
    pub closed spec fn message_spec(self) -> Seq<char> {
        self.error_message@
    }

    /// Wraps a decoded message.
    pub(crate) fn from_message(m: String) -> (r: Self)
        ensures
            r.message_spec() == m@,
    {
        ErrorBody { error_message: m }
    }

    /// Gets the human-friendly message returned by the appliance.
    pub fn message(&self) -> (r: &str)
        ensures
            r@ == self.message_spec(),
    {
        self.error_message.as_str()
    }

    /// Reads an error body from response text, best-effort: only an
    /// object whose `error_message` field is a string qualifies.
    pub fn from_json_text(s: &str) -> (r: Option<ErrorBody>)
        ensures
            match r {
                Option::Some(b) => error_body_message(json_of_text(s@)) == Option::Some(
                    b.message_spec(),
                ),
                Option::None => error_body_message(json_of_text(s@)) is None,
            },
    {
        let j = match crate::json::parse_text(s) {
            Option::Some(j) => j,
            Option::None => {
                return Option::None;
            },
        };
        let m = match j.get_field("error_message") {
            Option::Some(v) => v,
            Option::None => {
                return Option::None;
            },
        };
        match m {
            Json::Str(msg) => Option::Some(ErrorBody::from_message(msg.clone())),
            _ => Option::None,
        }
    }
}

/// The message inside a well-formed error-body document: an object whose
/// `error_message` field is a string.
pub open spec fn error_body_message(j: Option<JVal>) -> Option<Seq<char>> {
    match j {
        Option::Some(JVal::Obj(fs)) => match obj_get(fs, "error_message"@) {
            Option::Some(JVal::Str(m)) => Option::Some(m),
            _ => Option::None,
        },
        _ => Option::None,
    }
}

} // verus!
