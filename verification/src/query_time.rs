//! Absolute and relative time expressions for API queries.

use vstd::prelude::*;

use crate::json::{Json, JVal};

verus! {

/// The wire representation of a query time: exactly one case is active.
#[derive(Debug, Clone)]
enum Repr {
    /// A positive, absolute packet timestamp.
    Timestamp(u64),
    /// The current packet time of the appliance, sent as `0`.
    Now,
    /// A positive count of milliseconds before the current packet time.
    MsAgo(u64),
    /// A free-form relative unit expression such as `-30m`, sent verbatim.
    /// No local validation is performed; a malformed expression is only
    /// caught by the remote appliance, which reports an application error.
    RelativeUnits(String),
}

/// The model of a query time.
pub enum TimeModel {
    Timestamp(u64),
    Now,
    MsAgo(u64),
    RelativeUnits(Seq<char>),
}

impl TimeModel {
    /// Timestamps and millisecond offsets are never zero; zero means `Now`.
    pub open spec fn wf(self) -> bool {
        match self {
            TimeModel::Timestamp(ts) => ts > 0,
            TimeModel::MsAgo(ms) => ms > 0,
            _ => true,
        }
    }

    /// Whether the time is relative to the appliance's "now". Only an
    /// absolute timestamp is not.
    pub open spec fn is_relative(self) -> bool {
        !(self is Timestamp)
    }

    /// The document a time serializes to: a bare number for the numeric
    /// cases and a quoted string for the unit expression.
    pub open spec fn to_jval(self) -> JVal {
        match self {
            TimeModel::Timestamp(ts) => JVal::Num { neg: false, mag: ts },
            TimeModel::Now => JVal::Num { neg: false, mag: 0 },
            TimeModel::MsAgo(ms) => JVal::Num { neg: true, mag: ms },
            TimeModel::RelativeUnits(s) => JVal::Str(s),
        }
    }

    /// The time a document number or string reads back as.
    pub open spec fn from_jval(j: JVal) -> Option<TimeModel> {
        match j {
            JVal::Num { neg, mag } => if mag == 0 {
                Option::Some(TimeModel::Now)
            } else if neg {
                Option::Some(TimeModel::MsAgo(mag))
            } else {
                Option::Some(TimeModel::Timestamp(mag))
            },
            JVal::Str(s) => Option::Some(TimeModel::RelativeUnits(s)),
            _ => Option::None,
        }
    }
}

/// A well-formed time reads back from its own document unchanged.
pub proof fn lemma_time_round_trip(t: TimeModel)
    requires
        t.wf(),
    ensures
        TimeModel::from_jval(t.to_jval()) == Option::Some(t),
{
}

/// Represents an absolute or relative time sent to the API as part of a
/// query.
///
/// By default, `QueryTime` refers to the current time as known to the called
/// API; this is represented in requests as `0`. Values are constructed
/// through the conversion impls: an unsigned integer is an absolute
/// timestamp (zero meaning "now"), a signed integer at or below zero counts
/// milliseconds back from "now", and a string such as `"-30m"` is an opaque
/// relative unit expression serialized verbatim.
#[derive(Debug, Clone)]
pub struct QueryTime(Repr);

impl View for QueryTime {
    type V = TimeModel;

    closed spec fn view(&self) -> TimeModel {
        match self.0 {
            Repr::Timestamp(ts) => TimeModel::Timestamp(ts),
            Repr::Now => TimeModel::Now,
            Repr::MsAgo(ms) => TimeModel::MsAgo(ms),
            Repr::RelativeUnits(s) => TimeModel::RelativeUnits(s@),
        }
    }
}

impl QueryTime {
    /// Every constructed time satisfies the model invariant.
    pub closed spec fn wf(self) -> bool {
        self@.wf()
    }

    /// Returns `true` if the query time is relative to the appliance's
    /// "now": everything but an absolute timestamp.
    pub fn is_relative(&self) -> (r: bool)
        ensures
            r == self@.is_relative(),
    {
        match &self.0 {
            Repr::Timestamp(_) => false,
            _ => true,
        }
    }

    /// Returns `true` if the query time is measured from the Unix epoch.
    pub fn is_absolute(&self) -> (r: bool)
        ensures
            r == !self@.is_relative(),
    {
        !self.is_relative()
    }

    /// The document this time serializes to.
    pub fn to_json(&self) -> (r: Json)
        ensures
            r@ == self@.to_jval(),
    {
        match &self.0 {
            Repr::Timestamp(ts) => Json::Num { neg: false, mag: *ts },
            Repr::Now => Json::Num { neg: false, mag: 0 },
            Repr::MsAgo(ms) => Json::Num { neg: true, mag: *ms },
            Repr::RelativeUnits(s) => Json::Str(s.clone()),
        }
    }

    /// Reads a time back from a document; only a number or a string is
    /// accepted.
    pub fn from_json(j: &Json) -> (r: Option<QueryTime>)
        ensures
            match r {
                Option::Some(t) => TimeModel::from_jval(j@) == Option::Some(t@) && t.wf(),
                Option::None => TimeModel::from_jval(j@) is None,
            },
    {
        match j {
            Json::Num { neg, mag } => {
                if *mag == 0 {
                    Option::Some(QueryTime(Repr::Now))
                } else if *neg {
                    Option::Some(QueryTime(Repr::MsAgo(*mag)))
                } else {
                    Option::Some(QueryTime(Repr::Timestamp(*mag)))
                }
            },
            Json::Str(s) => Option::Some(QueryTime(Repr::RelativeUnits(s.clone()))),
            _ => Option::None,
        }
    }
}

impl PartialEq for QueryTime {
    fn eq(&self, other: &Self) -> (r: bool) {
        match (&self.0, &other.0) {
            (Repr::Timestamp(a), Repr::Timestamp(b)) => *a == *b,
            (Repr::Now, Repr::Now) => true,
            (Repr::MsAgo(a), Repr::MsAgo(b)) => *a == *b,
            (Repr::RelativeUnits(a), Repr::RelativeUnits(b)) => *a == *b,
            _ => false,
        }
    }
}

impl vstd::std_specs::cmp::PartialEqSpecImpl for QueryTime {
    open spec fn obeys_eq_spec() -> bool {
        true
    }

    open spec fn eq_spec(&self, other: &Self) -> bool {
        self@ == other@
    }
}

impl Default for QueryTime {
    /// The default time is the current time of the called API.
    fn default() -> (r: Self)
        ensures
            r@ == TimeModel::Now,
    {
        QueryTime(Repr::Now)
    }
}

impl From<u64> for QueryTime {
    /// Zero means "now"; anything else is an absolute timestamp.
    fn from(val: u64) -> (r: Self) {
        if val == 0 {
            QueryTime(Repr::Now)
        } else {
            QueryTime(Repr::Timestamp(val))
        }
    }
}

impl vstd::std_specs::convert::FromSpecImpl<u64> for QueryTime {
    open spec fn obeys_from_spec() -> bool {
        true
    }

    closed spec fn from_spec(val: u64) -> QueryTime {
        if val == 0 {
            QueryTime(Repr::Now)
        } else {
            QueryTime(Repr::Timestamp(val))
        }
    }
}

impl From<i64> for QueryTime {
    /// Zero means "now", a positive value is an absolute timestamp, and a
    /// negative value counts milliseconds back from "now".
    fn from(val: i64) -> (r: Self) {
        if val == 0 {
            QueryTime(Repr::Now)
        } else if val > 0 {
            QueryTime(Repr::Timestamp(val as u64))
        } else {
            QueryTime(Repr::MsAgo((-(val as i128)) as u64))
        }
    }
}

impl vstd::std_specs::convert::FromSpecImpl<i64> for QueryTime {
    open spec fn obeys_from_spec() -> bool {
        true
    }

    closed spec fn from_spec(val: i64) -> QueryTime {
        if val == 0 {
            QueryTime(Repr::Now)
        } else if val > 0 {
            QueryTime(Repr::Timestamp(val as u64))
        } else {
            QueryTime(Repr::MsAgo((-(val as i128)) as u64))
        }
    }
}

impl From<String> for QueryTime {
    /// The string is kept verbatim as a relative unit expression.
    fn from(val: String) -> (r: Self) {
        QueryTime(Repr::RelativeUnits(val))
    }
}

impl vstd::std_specs::convert::FromSpecImpl<String> for QueryTime {
    open spec fn obeys_from_spec() -> bool {
        true
    }

    closed spec fn from_spec(val: String) -> QueryTime {
        QueryTime(Repr::RelativeUnits(val))
    }
}

impl<'a> From<&'a str> for QueryTime {
    /// The string is kept verbatim as a relative unit expression.
    fn from(val: &'a str) -> (r: Self) {
        QueryTime(Repr::RelativeUnits(val.to_owned()))
    }
}

impl<'a> vstd::std_specs::convert::FromSpecImpl<&'a str> for QueryTime {
    open spec fn obeys_from_spec() -> bool {
        false
    }

    closed spec fn from_spec(val: &'a str) -> QueryTime {
        QueryTime(Repr::Now)
    }
}

/// What the unsigned conversion constructs: zero is "now", anything else
/// an absolute timestamp.
pub proof fn lemma_from_u64_model(v: u64)
    ensures
        (<QueryTime as vstd::std_specs::convert::FromSpec<u64>>::from_spec(v))@ == if v == 0 {
            TimeModel::Now
        } else {
            TimeModel::Timestamp(v)
        },
{
}

/// What the signed conversion constructs: zero is "now", a positive value
/// an absolute timestamp, and a negative value its magnitude in
/// milliseconds before "now".
pub proof fn lemma_from_i64_model(v: i64)
    ensures
        (<QueryTime as vstd::std_specs::convert::FromSpec<i64>>::from_spec(v))@ == if v == 0 {
            TimeModel::Now
        } else if v > 0 {
            TimeModel::Timestamp(v as u64)
        } else {
            TimeModel::MsAgo((-(v as i128)) as u64)
        },
{
}

/// What the string conversion constructs: the relative unit expression,
/// kept verbatim.
pub proof fn lemma_from_string_model(s: String)
    ensures
        (<QueryTime as vstd::std_specs::convert::FromSpec<String>>::from_spec(s))@
            == TimeModel::RelativeUnits(s@),
{
}

/// Every constructor establishes the model invariant: timestamps and
/// millisecond counts are never zero.
pub proof fn lemma_constructed_times_wf(u: u64, i: i64, s: String)
    ensures
        (<QueryTime as vstd::std_specs::convert::FromSpec<u64>>::from_spec(u)).wf(),
        (<QueryTime as vstd::std_specs::convert::FromSpec<i64>>::from_spec(i)).wf(),
        (<QueryTime as vstd::std_specs::convert::FromSpec<String>>::from_spec(s)).wf(),
{
}

/// For every signed input, the constructed time is relative exactly when the
/// input is at or below zero.
pub proof fn lemma_from_i64_relative(v: i64)
    ensures
        (<QueryTime as vstd::std_specs::convert::FromSpec<i64>>::from_spec(v))@.is_relative()
            == (v <= 0),
{
}

} // verus!
