//! Types for reading a response from `v1/activitymaps/query`.

use vstd::prelude::*;
use vstd::string::StrSliceExecFns;

use core::cmp::Ordering;

use crate::json::{
    jvals_of, lemma_jvals_of_index, lemma_jvals_of_len, obj_get, str_eq, JVal, Json,
};
use vstd::std_specs::cmp::PartialOrdSpec;
use crate::oid::Oid;

verus! {

/// Whether a node takes part in any edge of the sequence, as client or
/// server.
pub open spec fn appears_in(edges: Seq<Edge>, o: Oid) -> bool {
    exists|i: int| 0 <= i < edges.len() && ((#[trigger] edges[i]).from == o || edges[i].to == o)
}

/// A successful response to a single topology API request.
#[derive(Debug, Clone)]
pub struct Response {
    /// Non-fatal errors encountered during the construction of the map.
    /// Items in this list indicate that the returned topology may be
    /// incomplete.
    pub warnings: Vec<Error>,
    /// The absolute packet time at which data starts for the response.
    pub from: u64,
    /// The absolute packet time at which data ends for the response.
    pub until: u64,
    /// The collection of edges which matched the activity map query.
    pub edges: Vec<Edge>,
}

impl Response {
    /// Computes the set of nodes in the response: every distinct endpoint
    /// of an edge, each exactly once.
    pub fn nodes(&self) -> (r: Vec<Oid>)
        ensures
            r@.no_duplicates(),
            forall|o: Oid| #[trigger] r@.contains(o) <==> appears_in(self.edges@, o),
    {
        let mut out: Vec<Oid> = Vec::new();
        let n = self.edges.len();
        let mut i: usize = 0;
        while i < n
            invariant
                i <= n,
                n == self.edges@.len(),
                out@.no_duplicates(),
                forall|o: Oid| #[trigger] out@.contains(o) ==> appears_in(
                    self.edges@.subrange(0, i as int),
                    o,
                ),
                forall|k: int|
                    0 <= k < i ==> out@.contains(#[trigger] self.edges@[k].from) && out@.contains(
                        self.edges@[k].to,
                    ),
            decreases n - i,
        {
            let ghost pre: Seq<Edge> = self.edges@.subrange(0, i as int);
            let ghost cur: Seq<Edge> = self.edges@.subrange(0, i as int + 1);
            proof {
                assert(forall|k: int| 0 <= k < i ==> pre[k] == #[trigger] cur[k]);
                assert(cur[i as int] == self.edges@[i as int]);
                assert(forall|o: Oid| appears_in(pre, o) ==> appears_in(cur, o));
            }
            let ghost out0: Seq<Oid> = out@;
            push_unique(&mut out, self.edges[i].from);
            let ghost out1: Seq<Oid> = out@;
            push_unique(&mut out, self.edges[i].to);
            proof {
                assert(appears_in(cur, self.edges@[i as int].from));
                assert(appears_in(cur, self.edges@[i as int].to));
                assert forall|k: int|
                    0 <= k < i + 1 implies out@.contains(#[trigger] self.edges@[k].from)
                    && out@.contains(self.edges@[k].to) by {
                    if k < i {
                        assert(out0.contains(self.edges@[k].from));
                        assert(out0.contains(self.edges@[k].to));
                        assert(out1.contains(self.edges@[k].from));
                        assert(out1.contains(self.edges@[k].to));
                    } else {
                        assert(out1.contains(self.edges@[i as int].from));
                    }
                    assert(out@.contains(self.edges@[k].from));
                    assert(out@.contains(self.edges@[k].to));
                }
            }
            i += 1;
        }
        proof {
            assert(self.edges@.subrange(0, n as int) =~= self.edges@);
        }
        out
    }

    /// The edges of the response, in order, for iteration.
    pub fn iter(&self) -> (r: &Vec<Edge>)
        ensures
            r@ == self.edges@,
    {
        &self.edges
    }

    /// Checks that there are no warnings which indicate an incomplete
    /// response from the appliance: true exactly when `warnings` is empty.
    pub fn is_complete(&self) -> (r: bool)
        ensures
            r == (self.warnings@.len() == 0),
    {
        self.warnings.len() == 0
    }
}

impl Default for Response {
    /// An empty response: no warnings, no edges, zero time bounds.
    fn default() -> (r: Self)
        ensures
            r.warnings@.len() == 0,
            r.from == 0,
            r.until == 0,
            r.edges@.len() == 0,
    {
        Response { warnings: Vec::new(), from: 0, until: 0, edges: Vec::new() }
    }
}

/// Whether an `Oid` occurs in the vector.
fn contains_oid(v: &Vec<Oid>, o: Oid) -> (r: bool)
    ensures
        r == v@.contains(o),
{
    let mut i: usize = 0;
    while i < v.len()
        invariant
            i <= v@.len(),
            forall|k: int| 0 <= k < i ==> v@[k] != o,
        decreases v@.len() - i,
    {
        if v[i] == o {
            return true;
        }
        i += 1;
    }
    false
}

/// Appends an `Oid` unless it is already present.
fn push_unique(out: &mut Vec<Oid>, o: Oid)
    requires
        old(out)@.no_duplicates(),
    ensures
        final(out)@.no_duplicates(),
        forall|x: Oid| #[trigger] final(out)@.contains(x) <==> (old(out)@.contains(x) || x == o),
{
    if !contains_oid(out, o) {
        out.push(o);
        proof {
            let s = old(out)@;
            assert(forall|k: int| 0 <= k < s.len() ==> s[k] != o);
            assert forall|x: Oid| #[trigger] out@.contains(x) implies (s.contains(x) || x == o) by {
                let idx = choose|idx: int| 0 <= idx < out@.len() && out@[idx] == x;
                if idx < s.len() {
                    assert(s[idx] == x);
                }
            }
            assert forall|x: Oid| s.contains(x) || x == o implies #[trigger] out@.contains(x) by {
                if s.contains(x) {
                    let idx = choose|idx: int| 0 <= idx < s.len() && s[idx] == x;
                    assert(out@[idx] == x);
                } else {
                    assert(out@[s.len() as int] == o);
                }
            }
            assert forall|k1: int, k2: int| 0 <= k1 < k2 < out@.len() implies out@[k1] != out@[k2]
                by {
                if k2 < s.len() {
                    assert(s[k1] != s[k2]);
                } else {
                    assert(out@[k2] == o && s[k1] != o);
                }
            }
        }
    }
}

/// The model of an API error: its message, its type, and the model of its
/// property bag, if one came along.
pub struct ErrorModel {
    pub message: Seq<char>,
    pub error_type: Seq<char>,
    pub properties: Option<JVal>,
}

/// An error or warning returned by the API.
#[derive(Debug, Clone)]
pub struct Error {
    /// A human-friendly message describing the error that occurred.
    pub message: String,
    /// A machine-friendly string that identifies the type of error.
    pub error_type: String,
    /// A bag of properties that can be used in conjunction with the error
    /// type to construct a richer error message.
    pub(crate) properties: Option<Json>,
}

impl View for Error {
    type V = ErrorModel;

    closed spec fn view(&self) -> ErrorModel {
        ErrorModel {
            message: self.message@,
            error_type: self.error_type@,
            properties: match self.properties {
                Option::Some(p) => Option::Some(p@),
                Option::None => Option::None,
            },
        }
    }
}

impl Error {
    /// Create a new error with no properties.
    pub fn new(message: String, error_type: String) -> (r: Self)
        ensures
            r@.message == message@,
            r@.error_type == error_type@,
            r@.properties is None,
    {
        Error { message, error_type, properties: Option::None }
    }
}

/// A connection between two nodes in a directed graph.
#[derive(Debug, Clone)]
pub struct Edge {
    /// The "client" device in the edge. This may be the device on which the
    /// step *ended* if a server-to-client relationship was specified.
    pub from: Oid,
    /// The "server" device in the edge. This may be the device on which the
    /// step *started* if a server-to-client relationship was specified.
    pub to: Oid,
    /// The "importance" of the edge; larger numbers are more important.
    pub weight: u64,
    /// Additional data about the edge which was asked for in the request.
    pub annotations: EdgeAnnotations,
}

/// Additional data about the edge which can be asked for in the request.
/// Properties hold `Some` when their key was present in the request, though
/// the contents may themselves be empty; `None` means the annotation was
/// not requested at all.
#[derive(Debug, Clone)]
pub struct EdgeAnnotations {
    /// The list of walk/step pairs which traversed this edge during map
    /// construction.
    pub appearances: Option<Vec<Appearance>>,
    /// The per-protocol contributions to the edge's weight.
    pub protocols: Option<Vec<ProtocolAnnotation>>,
}

impl Default for EdgeAnnotations {
    /// No annotations were requested.
    fn default() -> (r: Self)
        ensures
            r.appearances is None,
            r.protocols is None,
    {
        EdgeAnnotations { appearances: Option::None, protocols: Option::None }
    }
}

/// A walk index and step index into the request.
#[derive(Debug, Clone, Copy, PartialEq, Eq, Structural, Ord, Hash)]
pub struct Appearance {
    /// The index of the walk that contributed to this appearance.
    pub walk: u16,
    /// The index of the step in the walk that contributed to this
    /// appearance.
    pub step: u16,
}

impl Appearance {
    /// Create a new `Appearance` for a specific walk and step.
    pub fn new(walk: u16, step: u16) -> (r: Self)
        ensures
            r.walk == walk,
            r.step == step,
    {
        Appearance { walk, step }
    }
}

impl PartialOrd for Appearance {
    fn partial_cmp(&self, other: &Self) -> (r: Option<Ordering>) {
        if self.walk < other.walk {
            Option::Some(Ordering::Less)
        } else if self.walk > other.walk {
            Option::Some(Ordering::Greater)
        } else if self.step < other.step {
            Option::Some(Ordering::Less)
        } else if self.step > other.step {
            Option::Some(Ordering::Greater)
        } else {
            Option::Some(Ordering::Equal)
        }
    }
}

impl vstd::std_specs::cmp::PartialOrdSpecImpl for Appearance {
    open spec fn obeys_partial_cmp_spec() -> bool {
        true
    }

    open spec fn partial_cmp_spec(&self, other: &Self) -> Option<Ordering> {
        if self.walk < other.walk {
            Option::Some(Ordering::Less)
        } else if self.walk > other.walk {
            Option::Some(Ordering::Greater)
        } else if self.step < other.step {
            Option::Some(Ordering::Less)
        } else if self.step > other.step {
            Option::Some(Ordering::Greater)
        } else {
            Option::Some(Ordering::Equal)
        }
    }
}

/// Appearances are ordered lexicographically: first by walk index, then by
/// step index; two appearances are equal exactly when both indices agree.
pub proof fn lemma_appearance_order(a: Appearance, b: Appearance)
    ensures
        a.partial_cmp_spec(&b) == Option::Some(Ordering::Less) <==> (a.walk < b.walk || (a.walk
            == b.walk && a.step < b.step)),
        a.partial_cmp_spec(&b) == Option::Some(Ordering::Equal) <==> a == b,
        a.partial_cmp_spec(&b) == Option::Some(Ordering::Greater) <==> (a.walk > b.walk || (a.walk
            == b.walk && a.step > b.step)),
{
}

/// An annotation connecting a protocol to the weight that it added to an
/// edge.
#[derive(Debug, Clone)]
pub struct ProtocolAnnotation {
    /// The amount of weight on the protocol. The units depend on the
    /// request configuration.
    pub weight: u32,
    /// The protocol which contributed the specified weight.
    pub protocol: ProtocolStack,
}

/// The stack of protocols for this part of the edge, from L3 upward.
#[derive(Debug, Clone)]
pub struct ProtocolStack(Vec<String>);

/// What a protocol stack displays as: the last layer, unless that is the
/// sentinel `OTHER` and a lower layer is known, in which case the layer
/// below it; an empty stack displays as `OTHER`.
pub open spec fn display_spec(stack: Seq<Seq<char>>) -> Seq<char> {
    if stack.len() == 0 {
        "OTHER"@
    } else if stack.len() > 1 && stack[stack.len() - 1] == "OTHER"@ {
        stack[stack.len() - 2]
    } else {
        stack[stack.len() - 1]
    }
}

impl View for ProtocolStack {
    type V = Seq<Seq<char>>;

    closed spec fn view(&self) -> Seq<Seq<char>> {
        self.0@.map_values(|s: String| s@)
    }
}

impl ProtocolStack {
    /// Wraps a list of layer names, lowest layer first.
    pub fn new(layers: Vec<String>) -> (r: Self)
        ensures
            r@ == layers@.map_values(|s: String| s@),
    {
        ProtocolStack(layers)
    }

    /// The display name of the stack; see [`display_spec`].
    pub fn to_string(&self) -> (r: String)
        ensures
            r@ == display_spec(self@),
    {
        let n = self.0.len();
        if n == 0 {
            let r = "OTHER".to_owned();
            return r;
        }
        if n > 1 && str_eq(self.0[n - 1].as_str(), "OTHER") {
            self.0[n - 2].clone()
        } else {
            self.0[n - 1].clone()
        }
    }
}

impl<'a> From<Vec<&'a str>> for ProtocolStack {
    /// Wraps a list of borrowed layer names, lowest layer first.
    fn from(vals: Vec<&'a str>) -> (r: Self) {
        let mut layers: Vec<String> = Vec::new();
        let mut i: usize = 0;
        while i < vals.len()
            invariant
                i <= vals@.len(),
                layers@.len() == i,
                forall|k: int| 0 <= k < i ==> layers@[k]@ == vals@[k]@,
            decreases vals@.len() - i,
        {
            layers.push(vals[i].to_owned());
            i += 1;
        }
        ProtocolStack(layers)
    }
}

impl<'a> vstd::std_specs::convert::FromSpecImpl<Vec<&'a str>> for ProtocolStack {
    open spec fn obeys_from_spec() -> bool {
        false
    }

    closed spec fn from_spec(vals: Vec<&'a str>) -> ProtocolStack {
        arbitrary()
    }
}

/// The model of a protocol annotation: the weight and the layer names.
pub struct ProtocolAnnotationModel {
    pub weight: u32,
    pub protocol: Seq<Seq<char>>,
}

impl View for ProtocolAnnotation {
    type V = ProtocolAnnotationModel;

    open spec fn view(&self) -> ProtocolAnnotationModel {
        ProtocolAnnotationModel { weight: self.weight, protocol: self.protocol@ }
    }
}

/// The model of an edge's annotations.
pub struct AnnotationsModel {
    pub appearances: Option<Seq<Appearance>>,
    pub protocols: Option<Seq<ProtocolAnnotationModel>>,
}

impl View for EdgeAnnotations {
    type V = AnnotationsModel;

    open spec fn view(&self) -> AnnotationsModel {
        AnnotationsModel {
            appearances: match self.appearances {
                Option::Some(v) => Option::Some(v@),
                Option::None => Option::None,
            },
            protocols: match self.protocols {
                Option::Some(v) => Option::Some(
                    v@.map_values(|p: ProtocolAnnotation| p@),
                ),
                Option::None => Option::None,
            },
        }
    }
}

/// The model of an edge.
pub struct EdgeModel {
    pub from: Oid,
    pub to: Oid,
    pub weight: u64,
    pub annotations: AnnotationsModel,
}

impl View for Edge {
    type V = EdgeModel;

    open spec fn view(&self) -> EdgeModel {
        EdgeModel {
            from: self.from,
            to: self.to,
            weight: self.weight,
            annotations: self.annotations@,
        }
    }
}

/// The model of a response.
pub struct ResponseModel {
    pub warnings: Seq<ErrorModel>,
    pub from: u64,
    pub until: u64,
    pub edges: Seq<EdgeModel>,
}

impl View for Response {
    type V = ResponseModel;

    open spec fn view(&self) -> ResponseModel {
        ResponseModel {
            warnings: self.warnings@.map_values(|e: Error| e@),
            from: self.from,
            until: self.until,
            edges: self.edges@.map_values(|e: Edge| e@),
        }
    }
}

/// The appearance a document reads back as: a `walk` and a `step` index,
/// each a number fitting sixteen bits.
pub open spec fn appearance_of_jval(j: JVal) -> Option<Appearance> {
    if j is Obj {
        let fs = j->Obj_0;
        match (obj_get(fs, "walk"@), obj_get(fs, "step"@)) {
            (
                Option::Some(JVal::Num { neg: false, mag: w }),
                Option::Some(JVal::Num { neg: false, mag: s }),
            ) => if w <= 0xffff && s <= 0xffff {
                Option::Some(Appearance { walk: w as u16, step: s as u16 })
            } else {
                Option::None
            },
            _ => Option::None,
        }
    } else {
        Option::None
    }
}

/// The appearances a list of documents reads back as.
pub open spec fn appearances_of_jvals(items: Seq<JVal>) -> Option<Seq<Appearance>> {
    if forall|i: int| 0 <= i < items.len() ==> (#[trigger] appearance_of_jval(items[i])) is Some {
        Option::Some(items.map_values(|j: JVal| appearance_of_jval(j)->0))
    } else {
        Option::None
    }
}

/// The layer names a list of documents reads back as: every item must be a
/// string.
pub open spec fn stack_of_jvals(items: Seq<JVal>) -> Option<Seq<Seq<char>>> {
    if forall|i: int| 0 <= i < items.len() ==> (#[trigger] items[i]) is Str {
        Option::Some(items.map_values(|j: JVal| j->Str_0))
    } else {
        Option::None
    }
}

/// The protocol annotation a document reads back as: a `weight` fitting
/// thirty-two bits and a `protocol` layer list.
pub open spec fn protocol_annotation_of_jval(j: JVal) -> Option<ProtocolAnnotationModel> {
    if j is Obj {
        let fs = j->Obj_0;
        match (obj_get(fs, "weight"@), obj_get(fs, "protocol"@)) {
            (Option::Some(JVal::Num { neg: false, mag: w }), Option::Some(JVal::Arr(layers))) => if
                w <= 0xffff_ffff {
                match stack_of_jvals(layers) {
                    Option::Some(st) => Option::Some(
                        ProtocolAnnotationModel { weight: w as u32, protocol: st },
                    ),
                    Option::None => Option::None,
                }
            } else {
                Option::None
            },
            _ => Option::None,
        }
    } else {
        Option::None
    }
}

/// The protocol annotations a list of documents reads back as.
pub open spec fn protocol_annotations_of_jvals(items: Seq<JVal>) -> Option<
    Seq<ProtocolAnnotationModel>,
> {
    if forall|i: int|
        0 <= i < items.len() ==> (#[trigger] protocol_annotation_of_jval(items[i])) is Some {
        Option::Some(items.map_values(|j: JVal| protocol_annotation_of_jval(j)->0))
    } else {
        Option::None
    }
}

/// The edge annotations a document reads back as. A missing key means the
/// annotation was not requested; an explicit null reads the same way.
pub open spec fn edge_annotations_of_jval(j: JVal) -> Option<AnnotationsModel> {
    if j is Obj {
        let fs = j->Obj_0;
        let apps = match obj_get(fs, "appearances"@) {
            Option::None => Option::Some(Option::<Seq<Appearance>>::None),
            Option::Some(JVal::Null) => Option::Some(Option::<Seq<Appearance>>::None),
            Option::Some(JVal::Arr(items)) => match appearances_of_jvals(items) {
                Option::Some(v) => Option::Some(Option::Some(v)),
                Option::None => Option::None,
            },
            Option::Some(_) => Option::None,
        };
        let protos = match obj_get(fs, "protocols"@) {
            Option::None => Option::Some(Option::<Seq<ProtocolAnnotationModel>>::None),
            Option::Some(JVal::Null) => Option::Some(
                Option::<Seq<ProtocolAnnotationModel>>::None,
            ),
            Option::Some(JVal::Arr(items)) => match protocol_annotations_of_jvals(items) {
                Option::Some(v) => Option::Some(Option::Some(v)),
                Option::None => Option::None,
            },
            Option::Some(_) => Option::None,
        };
        match (apps, protos) {
            (Option::Some(a), Option::Some(p)) => Option::Some(
                AnnotationsModel { appearances: a, protocols: p },
            ),
            _ => Option::None,
        }
    } else {
        Option::None
    }
}

/// The edge a document reads back as: `from`, `to` and `weight` are
/// required, the annotations default to "none requested".
pub open spec fn edge_of_jval(j: JVal) -> Option<EdgeModel> {
    if j is Obj {
        let fs = j->Obj_0;
        let anns = match obj_get(fs, "annotations"@) {
            Option::None => Option::Some(
                AnnotationsModel { appearances: Option::None, protocols: Option::None },
            ),
            Option::Some(aj) => edge_annotations_of_jval(aj),
        };
        match (obj_get(fs, "from"@), obj_get(fs, "to"@), obj_get(fs, "weight"@), anns) {
            (
                Option::Some(JVal::Num { neg: false, mag: f }),
                Option::Some(JVal::Num { neg: false, mag: t }),
                Option::Some(JVal::Num { neg: false, mag: w }),
                Option::Some(a),
            ) => Option::Some(
                EdgeModel {
                    from: Oid::new_spec(f),
                    to: Oid::new_spec(t),
                    weight: w,
                    annotations: a,
                },
            ),
            _ => Option::None,
        }
    } else {
        Option::None
    }
}

/// The edges a list of documents reads back as.
pub open spec fn edges_of_jvals(items: Seq<JVal>) -> Option<Seq<EdgeModel>> {
    if forall|i: int| 0 <= i < items.len() ==> (#[trigger] edge_of_jval(items[i])) is Some {
        Option::Some(items.map_values(|j: JVal| edge_of_jval(j)->0))
    } else {
        Option::None
    }
}

/// The warning a document reads back as: a `message` and a `type`, plus an
/// optional property bag kept verbatim.
pub open spec fn error_of_jval(j: JVal) -> Option<ErrorModel> {
    if j is Obj {
        let fs = j->Obj_0;
        match (obj_get(fs, "message"@), obj_get(fs, "type"@)) {
            (Option::Some(JVal::Str(m)), Option::Some(JVal::Str(t))) => Option::Some(
                ErrorModel { message: m, error_type: t, properties: obj_get(fs, "properties"@) },
            ),
            _ => Option::None,
        }
    } else {
        Option::None
    }
}

/// The warnings a list of documents reads back as.
pub open spec fn errors_of_jvals(items: Seq<JVal>) -> Option<Seq<ErrorModel>> {
    if forall|i: int| 0 <= i < items.len() ==> (#[trigger] error_of_jval(items[i])) is Some {
        Option::Some(items.map_values(|j: JVal| error_of_jval(j)->0))
    } else {
        Option::None
    }
}

impl Appearance {
    /// Reads an appearance back from a document.
    pub fn from_json(j: &Json) -> (r: Option<Appearance>)
        ensures
            r == appearance_of_jval(j@),
    {
        match j {
            Json::Obj(_) => {},
            _ => {
                return Option::None;
            },
        }
        let wj = match j.get_field("walk") {
            Option::Some(v) => v,
            Option::None => {
                return Option::None;
            },
        };
        let sj = match j.get_field("step") {
            Option::Some(v) => v,
            Option::None => {
                return Option::None;
            },
        };
        match (wj, sj) {
            (Json::Num { neg: false, mag: w }, Json::Num { neg: false, mag: s }) => {
                if *w <= 0xffff && *s <= 0xffff {
                    Option::Some(Appearance { walk: *w as u16, step: *s as u16 })
                } else {
                    Option::None
                }
            },
            _ => Option::None,
        }
    }
}

/// Reads a list of appearances back from array items.
fn parse_appearances(items: &Vec<Json>) -> (r: Option<Vec<Appearance>>)
    ensures
        match r {
            Option::Some(v) => appearances_of_jvals(jvals_of(*items, items@.len() as int))
                == Option::Some(v@),
            Option::None => appearances_of_jvals(jvals_of(*items, items@.len() as int)) is None,
        },
{
    let ghost s: Seq<JVal> = jvals_of(*items, items@.len() as int);
    proof {
        lemma_jvals_of_len(*items, items@.len() as int);
    }
    let mut out: Vec<Appearance> = Vec::new();
    let mut i: usize = 0;
    while i < items.len()
        invariant
            i <= items@.len(),
            s == jvals_of(*items, items@.len() as int),
            s.len() == items@.len(),
            out@.len() == i,
            forall|k: int|
                0 <= k < i ==> #[trigger] appearance_of_jval(s[k]) == Option::Some(out@[k]),
        decreases items@.len() - i,
    {
        proof {
            lemma_jvals_of_index(*items, items@.len() as int, i as int);
        }
        match Appearance::from_json(&items[i]) {
            Option::Some(x) => {
                out.push(x);
            },
            Option::None => {
                proof {
                    assert(appearance_of_jval(s[i as int]) is None);
                }
                return Option::None;
            },
        }
        i += 1;
    }
    proof {
        assert(forall|k: int| 0 <= k < s.len() ==> (#[trigger] appearance_of_jval(s[k])) is Some);
        assert(s.map_values(|j: JVal| appearance_of_jval(j)->0) =~= out@);
    }
    Option::Some(out)
}

/// Reads protocol layer names back from array items; every item must be a
/// string.
fn parse_stack(items: &Vec<Json>) -> (r: Option<Vec<String>>)
    ensures
        match r {
            Option::Some(v) => stack_of_jvals(jvals_of(*items, items@.len() as int))
                == Option::Some(v@.map_values(|x: String| x@)),
            Option::None => stack_of_jvals(jvals_of(*items, items@.len() as int)) is None,
        },
{
    let ghost s: Seq<JVal> = jvals_of(*items, items@.len() as int);
    proof {
        lemma_jvals_of_len(*items, items@.len() as int);
    }
    let mut out: Vec<String> = Vec::new();
    let mut i: usize = 0;
    while i < items.len()
        invariant
            i <= items@.len(),
            s == jvals_of(*items, items@.len() as int),
            s.len() == items@.len(),
            out@.len() == i,
            forall|k: int| 0 <= k < i ==> (#[trigger] s[k]) is Str && s[k]->Str_0 == out@[k]@,
        decreases items@.len() - i,
    {
        proof {
            lemma_jvals_of_index(*items, items@.len() as int, i as int);
        }
        match &items[i] {
            Json::Str(name) => {
                out.push(name.clone());
            },
            _ => {
                proof {
                    assert(!(s[i as int] is Str));
                }
                return Option::None;
            },
        }
        i += 1;
    }
    proof {
        assert(forall|k: int| 0 <= k < s.len() ==> (#[trigger] s[k]) is Str);
        assert(s.map_values(|j: JVal| j->Str_0) =~= out@.map_values(|x: String| x@));
    }
    Option::Some(out)
}

impl ProtocolAnnotation {
    /// Reads a protocol annotation back from a document.
    pub fn from_json(j: &Json) -> (r: Option<ProtocolAnnotation>)
        ensures
            match r {
                Option::Some(x) => protocol_annotation_of_jval(j@) == Option::Some(x@),
                Option::None => protocol_annotation_of_jval(j@) is None,
            },
    {
        match j {
            Json::Obj(_) => {},
            _ => {
                return Option::None;
            },
        }
        let wj = match j.get_field("weight") {
            Option::Some(v) => v,
            Option::None => {
                return Option::None;
            },
        };
        let pj = match j.get_field("protocol") {
            Option::Some(v) => v,
            Option::None => {
                return Option::None;
            },
        };
        match (wj, pj) {
            (Json::Num { neg: false, mag: w }, Json::Arr(layers)) => {
                if *w <= 0xffff_ffff {
                    match parse_stack(layers) {
                        Option::Some(st) => Option::Some(
                            ProtocolAnnotation {
                                weight: *w as u32,
                                protocol: ProtocolStack::new(st),
                            },
                        ),
                        Option::None => Option::None,
                    }
                } else {
                    Option::None
                }
            },
            _ => Option::None,
        }
    }
}

/// Reads a list of protocol annotations back from array items.
fn parse_protocol_annotations(items: &Vec<Json>) -> (r: Option<Vec<ProtocolAnnotation>>)
    ensures
        match r {
            Option::Some(v) => protocol_annotations_of_jvals(jvals_of(*items, items@.len() as int))
                == Option::Some(v@.map_values(|p: ProtocolAnnotation| p@)),
            Option::None => protocol_annotations_of_jvals(
                jvals_of(*items, items@.len() as int),
            ) is None,
        },
{
    let ghost s: Seq<JVal> = jvals_of(*items, items@.len() as int);
    proof {
        lemma_jvals_of_len(*items, items@.len() as int);
    }
    let mut out: Vec<ProtocolAnnotation> = Vec::new();
    let mut i: usize = 0;
    while i < items.len()
        invariant
            i <= items@.len(),
            s == jvals_of(*items, items@.len() as int),
            s.len() == items@.len(),
            out@.len() == i,
            forall|k: int|
                0 <= k < i ==> #[trigger] protocol_annotation_of_jval(s[k]) == Option::Some(
                    out@[k]@,
                ),
        decreases items@.len() - i,
    {
        proof {
            lemma_jvals_of_index(*items, items@.len() as int, i as int);
        }
        match ProtocolAnnotation::from_json(&items[i]) {
            Option::Some(x) => {
                out.push(x);
            },
            Option::None => {
                proof {
                    assert(protocol_annotation_of_jval(s[i as int]) is None);
                }
                return Option::None;
            },
        }
        i += 1;
    }
    proof {
        assert(forall|k: int|
            0 <= k < s.len() ==> (#[trigger] protocol_annotation_of_jval(s[k])) is Some);
        assert(s.map_values(|j: JVal| protocol_annotation_of_jval(j)->0) =~= out@.map_values(
            |p: ProtocolAnnotation| p@,
        ));
    }
    Option::Some(out)
}

impl EdgeAnnotations {
    /// Reads an edge's annotations back from a document.
    pub fn from_json(j: &Json) -> (r: Option<EdgeAnnotations>)
        ensures
            match r {
                Option::Some(x) => edge_annotations_of_jval(j@) == Option::Some(x@),
                Option::None => edge_annotations_of_jval(j@) is None,
            },
    {
        match j {
            Json::Obj(_) => {},
            _ => {
                return Option::None;
            },
        }
        let appearances: Option<Vec<Appearance>> = match j.get_field("appearances") {
            Option::None => Option::None,
            Option::Some(v) => match v {
                Json::Null => Option::None,
                Json::Arr(items) => match parse_appearances(items) {
                    Option::Some(v) => Option::Some(v),
                    Option::None => {
                        return Option::None;
                    },
                },
                _ => {
                    return Option::None;
                },
            },
        };
        let protocols: Option<Vec<ProtocolAnnotation>> = match j.get_field("protocols") {
            Option::None => Option::None,
            Option::Some(v) => match v {
                Json::Null => Option::None,
                Json::Arr(items) => match parse_protocol_annotations(items) {
                    Option::Some(v) => Option::Some(v),
                    Option::None => {
                        return Option::None;
                    },
                },
                _ => {
                    return Option::None;
                },
            },
        };
        Option::Some(EdgeAnnotations { appearances, protocols })
    }
}

impl Edge {
    /// Reads an edge back from a document.
    pub fn from_json(j: &Json) -> (r: Option<Edge>)
        ensures
            match r {
                Option::Some(x) => edge_of_jval(j@) == Option::Some(x@),
                Option::None => edge_of_jval(j@) is None,
            },
    {
        match j {
            Json::Obj(_) => {},
            _ => {
                return Option::None;
            },
        }
        let annotations = match j.get_field("annotations") {
            Option::None => EdgeAnnotations { appearances: Option::None, protocols: Option::None },
            Option::Some(aj) => match EdgeAnnotations::from_json(aj) {
                Option::Some(a) => a,
                Option::None => {
                    return Option::None;
                },
            },
        };
        let fj = match j.get_field("from") {
            Option::Some(v) => v,
            Option::None => {
                return Option::None;
            },
        };
        let tj = match j.get_field("to") {
            Option::Some(v) => v,
            Option::None => {
                return Option::None;
            },
        };
        let wj = match j.get_field("weight") {
            Option::Some(v) => v,
            Option::None => {
                return Option::None;
            },
        };
        match (fj, tj, wj) {
            (
                Json::Num { neg: false, mag: f },
                Json::Num { neg: false, mag: t },
                Json::Num { neg: false, mag: w },
            ) => Option::Some(
                Edge { from: Oid::new(*f), to: Oid::new(*t), weight: *w, annotations },
            ),
            _ => Option::None,
        }
    }
}

/// Reads a list of edges back from array items.
fn parse_edges(items: &Vec<Json>) -> (r: Option<Vec<Edge>>)
    ensures
        match r {
            Option::Some(v) => edges_of_jvals(jvals_of(*items, items@.len() as int))
                == Option::Some(v@.map_values(|e: Edge| e@)),
            Option::None => edges_of_jvals(jvals_of(*items, items@.len() as int)) is None,
        },
{
    let ghost s: Seq<JVal> = jvals_of(*items, items@.len() as int);
    proof {
        lemma_jvals_of_len(*items, items@.len() as int);
    }
    let mut out: Vec<Edge> = Vec::new();
    let mut i: usize = 0;
    while i < items.len()
        invariant
            i <= items@.len(),
            s == jvals_of(*items, items@.len() as int),
            s.len() == items@.len(),
            out@.len() == i,
            forall|k: int| 0 <= k < i ==> #[trigger] edge_of_jval(s[k]) == Option::Some(out@[k]@),
        decreases items@.len() - i,
    {
        proof {
            lemma_jvals_of_index(*items, items@.len() as int, i as int);
        }
        match Edge::from_json(&items[i]) {
            Option::Some(x) => {
                out.push(x);
            },
            Option::None => {
                proof {
                    assert(edge_of_jval(s[i as int]) is None);
                }
                return Option::None;
            },
        }
        i += 1;
    }
    proof {
        assert(forall|k: int| 0 <= k < s.len() ==> (#[trigger] edge_of_jval(s[k])) is Some);
        assert(s.map_values(|j: JVal| edge_of_jval(j)->0) =~= out@.map_values(|e: Edge| e@));
    }
    Option::Some(out)
}

impl Error {
    /// Reads a warning back from a document.
    pub fn from_json(j: &Json) -> (r: Option<Error>)
        ensures
            match r {
                Option::Some(x) => error_of_jval(j@) == Option::Some(x@),
                Option::None => error_of_jval(j@) is None,
            },
    {
        match j {
            Json::Obj(_) => {},
            _ => {
                return Option::None;
            },
        }
        let mj = match j.get_field("message") {
            Option::Some(v) => v,
            Option::None => {
                return Option::None;
            },
        };
        let tj = match j.get_field("type") {
            Option::Some(v) => v,
            Option::None => {
                return Option::None;
            },
        };
        let properties: Option<Json> = match j.get_field("properties") {
            Option::Some(v) => Option::Some(v.clone()),
            Option::None => Option::None,
        };
        match (mj, tj) {
            (Json::Str(m), Json::Str(t)) => Option::Some(
                Error { message: m.clone(), error_type: t.clone(), properties },
            ),
            _ => Option::None,
        }
    }
}

/// Reads a list of warnings back from array items.
fn parse_errors(items: &Vec<Json>) -> (r: Option<Vec<Error>>)
    ensures
        match r {
            Option::Some(v) => errors_of_jvals(jvals_of(*items, items@.len() as int))
                == Option::Some(v@.map_values(|e: Error| e@)),
            Option::None => errors_of_jvals(jvals_of(*items, items@.len() as int)) is None,
        },
{
    let ghost s: Seq<JVal> = jvals_of(*items, items@.len() as int);
    proof {
        lemma_jvals_of_len(*items, items@.len() as int);
    }
    let mut out: Vec<Error> = Vec::new();
    let mut i: usize = 0;
    while i < items.len()
        invariant
            i <= items@.len(),
            s == jvals_of(*items, items@.len() as int),
            s.len() == items@.len(),
            out@.len() == i,
            forall|k: int| 0 <= k < i ==> #[trigger] error_of_jval(s[k]) == Option::Some(out@[k]@),
        decreases items@.len() - i,
    {
        proof {
            lemma_jvals_of_index(*items, items@.len() as int, i as int);
        }
        match Error::from_json(&items[i]) {
            Option::Some(x) => {
                out.push(x);
            },
            Option::None => {
                proof {
                    assert(error_of_jval(s[i as int]) is None);
                }
                return Option::None;
            },
        }
        i += 1;
    }
    proof {
        assert(forall|k: int| 0 <= k < s.len() ==> (#[trigger] error_of_jval(s[k])) is Some);
        assert(s.map_values(|j: JVal| error_of_jval(j)->0) =~= out@.map_values(|e: Error| e@));
    }
    Option::Some(out)
}

impl Response {
    /// Reads a response back from a document: every field is optional and
    /// a missing field is empty or zero.
    pub fn from_json(j: &Json) -> (r: Option<Response>)
        ensures
            match r {
                Option::Some(x) => response_of_jval(j@) == Option::Some(x@),
                Option::None => response_of_jval(j@) is None,
            },
    {
        match j {
            Json::Obj(_) => {},
            _ => {
                return Option::None;
            },
        }
        let warnings: Vec<Error> = match j.get_field("warnings") {
            Option::None => Vec::new(),
            Option::Some(v) => match v {
                Json::Arr(items) => match parse_errors(items) {
                    Option::Some(v) => v,
                    Option::None => {
                        return Option::None;
                    },
                },
                _ => {
                    return Option::None;
                },
            },
        };
        let from: u64 = match j.get_field("from") {
            Option::None => 0,
            Option::Some(v) => match v {
                Json::Num { neg: false, mag } => *mag,
                _ => {
                    return Option::None;
                },
            },
        };
        let until: u64 = match j.get_field("until") {
            Option::None => 0,
            Option::Some(v) => match v {
                Json::Num { neg: false, mag } => *mag,
                _ => {
                    return Option::None;
                },
            },
        };
        let edges: Vec<Edge> = match j.get_field("edges") {
            Option::None => Vec::new(),
            Option::Some(v) => match v {
                Json::Arr(items) => match parse_edges(items) {
                    Option::Some(v) => v,
                    Option::None => {
                        return Option::None;
                    },
                },
                _ => {
                    return Option::None;
                },
            },
        };
        let r = Response { warnings, from, until, edges };
        proof {
            assert(Seq::<Error>::empty().map_values(|e: Error| e@) =~= Seq::<ErrorModel>::empty());
            assert(Seq::<Edge>::empty().map_values(|e: Edge| e@) =~= Seq::<EdgeModel>::empty());
        }
        Option::Some(r)
    }

    /// Reads a response back from wire text.
    pub fn from_json_text(s: &str) -> (r: Option<Response>)
        ensures
            match r {
                Option::Some(x) => crate::json::json_of_text(s@) is Some && response_of_jval(
                    crate::json::json_of_text(s@)->0,
                ) == Option::Some(x@),
                Option::None => crate::json::json_of_text(s@) is None || response_of_jval(
                    crate::json::json_of_text(s@)->0,
                ) is None,
            },
    {
        match crate::json::parse_text(s) {
            Option::Some(j) => Response::from_json(&j),
            Option::None => Option::None,
        }
    }
}

/// Whether an edge has the node as either endpoint.
pub open spec fn on_edge(e: Edge, o: Oid) -> bool {
    e.from == o || e.to == o
}

/// Whether a position list is strictly increasing.
pub open spec fn strictly_increasing(s: Seq<usize>) -> bool {
    forall|k1: int, k2: int| 0 <= k1 < k2 < s.len() ==> s[k1] < s[k2]
}

/// The positions recorded for a node: those of the first entry carrying
/// its key, or none.
pub open spec fn key_positions(entries: Seq<(Oid, Vec<usize>)>, o: Oid) -> Seq<usize>
    decreases entries.len(),
{
    if entries.len() == 0 {
        Seq::empty()
    } else if entries[0].0 == o {
        entries[0].1@
    } else {
        key_positions(entries.drop_first(), o)
    }
}

proof fn lemma_key_positions_at(s: Seq<(Oid, Vec<usize>)>, o: Oid, k: int)
    requires
        0 <= k < s.len(),
        s[k].0 == o,
        forall|j: int| 0 <= j < k ==> (#[trigger] s[j]).0 != o,
    ensures
        key_positions(s, o) == s[k].1@,
    decreases k,
{
    if k > 0 {
        lemma_key_positions_at(s.drop_first(), o, k - 1);
    }
}

proof fn lemma_key_positions_none(s: Seq<(Oid, Vec<usize>)>, o: Oid)
    requires
        forall|j: int| 0 <= j < s.len() ==> (#[trigger] s[j]).0 != o,
    ensures
        key_positions(s, o) == Seq::<usize>::empty(),
    decreases s.len(),
{
    if s.len() > 0 {
        lemma_key_positions_none(s.drop_first(), o);
    }
}

proof fn lemma_key_positions_update(s: Seq<(Oid, Vec<usize>)>, k: int, v: Vec<usize>, x: Oid)
    requires
        0 <= k < s.len(),
        forall|j: int| 0 <= j < k ==> (#[trigger] s[j]).0 != s[k].0,
    ensures
        key_positions(s.update(k, (s[k].0, v)), x) == if x == s[k].0 {
            v@
        } else {
            key_positions(s, x)
        },
    decreases k,
{
    let t = s.update(k, (s[k].0, v));
    if k == 0 {
        if x != s[0].0 {
            assert(t.drop_first() =~= s.drop_first());
        }
    } else {
        assert(t.drop_first() =~= s.drop_first().update(k - 1, (s[k].0, v)));
        assert(s.drop_first()[k - 1] == s[k]);
        assert(t[0] == s[0]);
        lemma_key_positions_update(s.drop_first(), k - 1, v, x);
    }
}

proof fn lemma_key_positions_push(s: Seq<(Oid, Vec<usize>)>, o: Oid, v: Vec<usize>, x: Oid)
    requires
        forall|j: int| 0 <= j < s.len() ==> (#[trigger] s[j]).0 != o,
    ensures
        key_positions(s.push((o, v)), x) == if x == o {
            v@
        } else {
            key_positions(s, x)
        },
    decreases s.len(),
{
    reveal_with_fuel(key_positions, 3);
    let t = s.push((o, v));
    assert(t[s.len() as int] == (o, v));
    if s.len() == 0 {
        assert(t[0] == (o, v));
        if x != o {
            assert(t.drop_first() =~= Seq::<(Oid, Vec<usize>)>::empty());
        }
        assert(key_positions(t, x) == if x == o {
            v@
        } else {
            key_positions(s, x)
        });
    } else {
        assert(t[0] == s[0]);
        assert(t.drop_first() =~= s.drop_first().push((o, v)));
        lemma_key_positions_push(s.drop_first(), o, v, x);
        if x == s[0].0 {
            assert(x != o);
            assert(key_positions(t, x) == t[0].1@);
            assert(key_positions(s, x) == s[0].1@);
            assert(key_positions(t, x) == key_positions(s, x));
        } else {
            assert(key_positions(t, x) == key_positions(t.drop_first(), x));
            assert(key_positions(s, x) == key_positions(s.drop_first(), x));
            assert(key_positions(t.drop_first(), x) == key_positions(
                s.drop_first().push((o, v)),
                x,
            ));
        }
        assert(key_positions(t, x) == if x == o {
            v@
        } else {
            key_positions(s, x)
        });
    }
}

proof fn lemma_push_contains(s: Seq<usize>, v: usize, q: usize)
    ensures
        s.push(v).contains(q) <==> (s.contains(q) || q == v),
{
    if s.contains(q) {
        let w = choose|w: int| 0 <= w < s.len() && s[w] == q;
        assert(s.push(v)[w] == q);
    }
    assert(s.push(v)[s.len() as int] == v);
    if s.push(v).contains(q) {
        let w = choose|w: int| 0 <= w < s.push(v).len() && s.push(v)[w] == q;
        if w < s.len() {
            assert(s[w] == q);
        }
    }
}

proof fn lemma_push_increasing(s: Seq<usize>, v: usize)
    requires
        strictly_increasing(s),
        forall|q: usize| s.contains(q) ==> q < v,
    ensures
        strictly_increasing(s.push(v)),
{
    assert forall|k1: int, k2: int|
        0 <= k1 < k2 < s.push(v).len() implies s.push(v)[k1] < s.push(v)[k2] by {
        if k2 == s.len() {
            assert(s.contains(s[k1]));
            assert(s.push(v)[k1] == s[k1]);
        } else {
            assert(s.push(v)[k1] == s[k1] && s.push(v)[k2] == s[k2]);
        }
    }
}

/// Records the position `p` for node `o`: it is appended to the node's
/// entry, or a new entry is created.
#[verifier::loop_isolation(false)]
fn add_pos(entries: &mut Vec<(Oid, Vec<usize>)>, o: Oid, p: usize)
    requires
        forall|k1: int, k2: int|
            0 <= k1 < k2 < old(entries)@.len() ==> (#[trigger] old(entries)@[k1]).0 != (
            #[trigger] old(entries)@[k2]).0,
    ensures
        forall|k1: int, k2: int|
            0 <= k1 < k2 < final(entries)@.len() ==> (#[trigger] final(entries)@[k1]).0 != (
            #[trigger] final(entries)@[k2]).0,
        key_positions(final(entries)@, o) == key_positions(old(entries)@, o).push(p),
        forall|x: Oid|
            x != o ==> #[trigger] key_positions(final(entries)@, x) == key_positions(
                old(entries)@,
                x,
            ),
{
    let mut k: usize = 0;
    while k < entries.len()
        invariant
            k <= entries@.len(),
            entries@ == old(entries)@,
            forall|j: int| 0 <= j < k ==> (#[trigger] entries@[j]).0 != o,
        decreases entries@.len() - k,
    {
        if entries[k].0 == o {
            proof {
                lemma_key_positions_at(entries@, o, k as int);
            }
            let ghost before: Seq<(Oid, Vec<usize>)> = entries@;
            entries[k].1.push(p);
            proof {
                assert(forall|j: int|
                    0 <= j < entries@.len() ==> (#[trigger] entries@[j]).0 == before[j].0);
                assert(entries@ == before.update(
                    k as int,
                    (before[k as int].0, entries@[k as int].1),
                ));
                assert(entries@[k as int].1@ == before[k as int].1@.push(p));
                assert forall|x: Oid| true implies #[trigger] key_positions(entries@, x) == (
                    if x == o {
                        key_positions(before, x).push(p)
                    } else {
                        key_positions(before, x)
                    }
                ) by {
                    lemma_key_positions_update(
                        before,
                        k as int,
                        entries@[k as int].1,
                        x,
                    );
                }
            }
            return ;
        }
        k += 1;
    }
    let ghost before: Seq<(Oid, Vec<usize>)> = entries@;
    let mut single: Vec<usize> = Vec::new();
    single.push(p);
    proof {
        lemma_key_positions_none(before, o);
    }
    entries.push((o, single));
    proof {
        assert(entries@ == before.push((o, single)));
        assert forall|x: Oid| true implies #[trigger] key_positions(entries@, x) == (
            if x == o {
                key_positions(before, x).push(p)
            } else {
                key_positions(before, x)
            }
        ) by {
            lemma_key_positions_push(before, o, single, x);
            if x == o {
                assert(single@ =~= key_positions(before, o).push(p));
            }
        }
    }
}

/// A reverse index over a response: each node maps to the positions of the
/// edges in which it participates. It is built once by a single pass over
/// the edges, recording both endpoints of each edge.
pub struct NodeIndex {
    entries: Vec<(Oid, Vec<usize>)>,
    edges: Ghost<Seq<Edge>>,
}

impl NodeIndex {
    /// The edges this index was built over.
    pub closed spec fn edges_spec(self) -> Seq<Edge> {
        self.edges@
    }

    /// Every lookup list is strictly increasing and holds exactly the
    /// positions of the edges its node participates in.
    pub closed spec fn wf(self) -> bool {
        &&& forall|k1: int, k2: int|
            0 <= k1 < k2 < self.entries@.len() ==> (#[trigger] self.entries@[k1]).0 != (
            #[trigger] self.entries@[k2]).0
        &&& forall|x: Oid| strictly_increasing(#[trigger] key_positions(self.entries@, x))
        &&& forall|x: Oid, q: usize|
            #[trigger] key_positions(self.entries@, x).contains(q) <==> (q < self.edges@.len()
                && on_edge(self.edges@[q as int], x))
    }

    /// Builds the index in one pass over the response's edges.
    #[verifier::loop_isolation(false)]
    pub fn build(rsp: &Response) -> (r: NodeIndex)
        ensures
            r.wf(),
            r.edges_spec() == rsp.edges@,
    {
        let mut entries: Vec<(Oid, Vec<usize>)> = Vec::new();
        let n = rsp.edges.len();
        let mut i: usize = 0;
        proof {
            assert forall|x: Oid| #[trigger]
                key_positions(Seq::<(Oid, Vec<usize>)>::empty(), x) == Seq::<usize>::empty() by {
                lemma_key_positions_none(Seq::<(Oid, Vec<usize>)>::empty(), x);
            }
        }
        while i < n
            invariant
                i <= n,
                n == rsp.edges@.len(),
                forall|k1: int, k2: int|
                    0 <= k1 < k2 < entries@.len() ==> (#[trigger] entries@[k1]).0 != (
                    #[trigger] entries@[k2]).0,
                forall|x: Oid| strictly_increasing(#[trigger] key_positions(entries@, x)),
                forall|x: Oid, q: usize|
                    #[trigger] key_positions(entries@, x).contains(q) <==> (q < i && on_edge(
                        rsp.edges@[q as int],
                        x,
                    )),
            decreases n - i,
        {
            let from = rsp.edges[i].from;
            let to = rsp.edges[i].to;
            let ghost st0: Seq<(Oid, Vec<usize>)> = entries@;
            add_pos(&mut entries, from, i);
            let ghost st1: Seq<(Oid, Vec<usize>)> = entries@;
            if !(to == from) {
                add_pos(&mut entries, to, i);
            }
            proof {
                let st2 = entries@;
                let e = rsp.edges@[i as int];
                assert(e.from == from && e.to == to);
                assert forall|x: Oid| true implies {
                    &&& strictly_increasing(#[trigger] key_positions(st2, x))
                    &&& forall|q: usize|
                        #[trigger] key_positions(st2, x).contains(q) <==> (q < i + 1 && on_edge(
                            rsp.edges@[q as int],
                            x,
                        ))
                } by {
                    let s0 = key_positions(st0, x);
                    let s1 = key_positions(st1, x);
                    let s2 = key_positions(st2, x);
                    assert(strictly_increasing(s0));
                    assert(forall|q: usize| s0.contains(q) ==> q < i);
                    if x == from {
                        assert(s1 == s0.push(i));
                        lemma_push_increasing(s0, i);
                    } else {
                        assert(s1 == s0);
                    }
                    if to != from && x == to {
                        assert(s2 == s1.push(i));
                        assert forall|q: usize| s1.contains(q) implies q < i + 1 by {
                            lemma_push_contains(s0, i, q);
                        }
                        lemma_push_increasing(s1, i);
                    } else {
                        assert(s2 == s1);
                    }
                    assert forall|q: usize| true implies (#[trigger] s2.contains(q) <==> (q < i
                        + 1 && on_edge(rsp.edges@[q as int], x))) by {
                        lemma_push_contains(s0, i, q);
                        lemma_push_contains(s1, i, q);
                        if s2.contains(q) {
                            if q < i {
                            } else {
                                assert(q == i);
                                assert(x == from || x == to);
                            }
                        }
                        if q < i + 1 && on_edge(rsp.edges@[q as int], x) {
                            if q < i {
                                assert(s0.contains(q));
                            } else {
                                assert(x == e.from || x == e.to);
                            }
                        }
                    }
                }
            }
            i += 1;
        }
        NodeIndex { entries, edges: Ghost(rsp.edges@) }
    }

    /// The positions of the edges the node participates in, in increasing
    /// order; a node on no edge yields an empty list.
    #[verifier::loop_isolation(false)]
    pub fn lookup(&self, o: Oid) -> (r: Vec<usize>)
        requires
            self.wf(),
        ensures
            strictly_increasing(r@),
            forall|q: usize|
                #[trigger] r@.contains(q) <==> (q < self.edges_spec().len() && on_edge(
                    self.edges_spec()[q as int],
                    o,
                )),
    {
        let mut k: usize = 0;
        while k < self.entries.len()
            invariant
                k <= self.entries@.len(),
                forall|j: int| 0 <= j < k ==> (#[trigger] self.entries@[j]).0 != o,
            decreases self.entries@.len() - k,
        {
            if self.entries[k].0 == o {
                proof {
                    lemma_key_positions_at(self.entries@, o, k as int);
                }
                let src = &self.entries[k].1;
                let mut out: Vec<usize> = Vec::new();
                let mut j: usize = 0;
                while j < src.len()
                    invariant
                        j <= src@.len(),
                        out@ == src@.subrange(0, j as int),
                    decreases src@.len() - j,
                {
                    out.push(src[j]);
                    assert(out@ =~= src@.subrange(0, j as int + 1));
                    j += 1;
                }
                proof {
                    assert(out@ =~= src@);
                }
                return out;
            }
            k += 1;
        }
        proof {
            lemma_key_positions_none(self.entries@, o);
        }
        Vec::new()
    }
}

/// The response a document reads back as: every field is optional and a
/// missing field is empty or zero.
pub open spec fn response_of_jval(j: JVal) -> Option<ResponseModel> {
    if j is Obj {
        let fs = j->Obj_0;
        let warnings = match obj_get(fs, "warnings"@) {
            Option::None => Option::Some(Seq::<ErrorModel>::empty()),
            Option::Some(JVal::Arr(items)) => errors_of_jvals(items),
            Option::Some(_) => Option::None,
        };
        let from = match obj_get(fs, "from"@) {
            Option::None => Option::Some(0u64),
            Option::Some(JVal::Num { neg: false, mag }) => Option::Some(mag),
            Option::Some(_) => Option::None,
        };
        let until = match obj_get(fs, "until"@) {
            Option::None => Option::Some(0u64),
            Option::Some(JVal::Num { neg: false, mag }) => Option::Some(mag),
            Option::Some(_) => Option::None,
        };
        let edges = match obj_get(fs, "edges"@) {
            Option::None => Option::Some(Seq::<EdgeModel>::empty()),
            Option::Some(JVal::Arr(items)) => edges_of_jvals(items),
            Option::Some(_) => Option::None,
        };
        match (warnings, from, until, edges) {
            (Option::Some(w), Option::Some(f), Option::Some(u), Option::Some(e)) => Option::Some(
                ResponseModel { warnings: w, from: f, until: u, edges: e },
            ),
            _ => Option::None,
        }
    } else {
        Option::None
    }
}

} // verus!
