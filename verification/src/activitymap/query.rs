//! Types for creating and serializing an activity map query request.
//!
//! Serialization only emits properties that differ from the backend's own
//! defaults; this reduces the size of the serialized object and keeps it
//! forward-compatible with optional fields added server-side.

use vstd::prelude::*;

use crate::activitymap::rsp::Appearance;
use crate::json::{
    jvals_of, lemma_jfields_of_eq, lemma_jvals_of_eq, lemma_obj_get_at, lemma_obj_get_none,
    obj_get, str_eq, JVal, Json,
};
use crate::oid::Oid;
use crate::query_time::{QueryTime, TimeModel};

verus! {

/// The type of metrics that should be used to compute edge weight.
#[derive(Debug, Clone, Copy, PartialEq, Eq, Structural)]
pub enum Weighting {
    /// The number of bytes transferred in both directions between the two
    /// peers. This is the default strategy.
    Bytes,
    /// The number of connections *established* during the time interval.
    /// This does not include connections opened before the query interval.
    Connections,
    Turns,
}

impl Default for Weighting {
    fn default() -> (r: Self)
        ensures
            r == Weighting::Bytes,
    {
        Weighting::Bytes
    }
}

/// Flags to opt into additional data about the topology from the appliance.
#[derive(Debug, Clone, Copy, PartialEq, Eq, Structural)]
pub enum EdgeAnnotation {
    /// Causes the response to include an array for each edge which lists
    /// each walk and step index which traversed the selected edge.
    Appearances,
    /// Causes the response to include an array for each edge breaking down
    /// the total edge weight by protocol.
    Protocols,
}

/// Type of a metric source object which is compatible with the topology API.
#[derive(Debug, Clone, Copy, PartialEq, Eq, Structural)]
pub enum ObjectType {
    /// An individual endpoint.
    Device,
    /// A user-defined set of devices.
    DeviceGroup,
    /// A system-defined set of all devices speaking a given protocol during
    /// the queried window.
    ActivityGroup,
}

/// The role an endpoint is able to fill in a network transaction.
#[derive(Debug, Clone, Copy, PartialEq, Eq, Structural)]
pub enum Role {
    Client,
    Server,
    Any,
}

impl Role {
    /// Whether this is the implicit default, which serialization omits from
    /// a relationship.
    pub fn is_default(&self) -> (r: bool)
        ensures
            r == (*self == Role::Any),
    {
        match self {
            Role::Any => true,
            _ => false,
        }
    }
}

impl Default for Role {
    fn default() -> (r: Self)
        ensures
            r == Role::Any,
    {
        Role::Any
    }
}

/// Represents a metric source, such as a device or device group.
#[derive(Debug, Clone, Copy, PartialEq, Eq, Structural)]
pub struct Source {
    pub object_type: ObjectType,
    pub object_id: Oid,
}

impl Source {
    /// Create a new `Source` instance.
    pub fn new(object_type: ObjectType, id: Oid) -> (r: Self)
        ensures
            r == (Source { object_type, object_id: id }),
    {
        Source { object_type, object_id: id }
    }

    /// Create a new `Source` instance for a device.
    pub fn device(id: Oid) -> (r: Self)
        ensures
            r == (Source { object_type: ObjectType::Device, object_id: id }),
    {
        Source::new(ObjectType::Device, id)
    }

    /// Create a new `Source` instance for a device group.
    pub fn device_group(id: Oid) -> (r: Self)
        ensures
            r == (Source { object_type: ObjectType::DeviceGroup, object_id: id }),
    {
        Source::new(ObjectType::DeviceGroup, id)
    }
}

/// A protocol name that will be used to filter the edges traversed during
/// the walk. Unlike `rsp::ProtocolStack`, this is a single string and not a
/// full stack.
#[derive(Debug, Clone)]
pub struct Protocol(String);

impl View for Protocol {
    type V = Seq<char>;

    closed spec fn view(&self) -> Seq<char> {
        self.0@
    }
}

impl PartialEq for Protocol {
    fn eq(&self, other: &Self) -> (r: bool) {
        self.0 == other.0
    }
}

impl vstd::std_specs::cmp::PartialEqSpecImpl for Protocol {
    open spec fn obeys_eq_spec() -> bool {
        true
    }

    open spec fn eq_spec(&self, other: &Self) -> bool {
        self@ == other@
    }
}

impl From<String> for Protocol {
    fn from(val: String) -> (r: Self) {
        Protocol(val)
    }
}

impl vstd::std_specs::convert::FromSpecImpl<String> for Protocol {
    open spec fn obeys_from_spec() -> bool {
        true
    }

    closed spec fn from_spec(val: String) -> Protocol {
        Protocol(val)
    }
}

impl<'a> From<&'a str> for Protocol {
    fn from(val: &'a str) -> (r: Self) {
        Protocol(val.to_owned())
    }
}

impl<'a> vstd::std_specs::convert::FromSpecImpl<&'a str> for Protocol {
    open spec fn obeys_from_spec() -> bool {
        false
    }

    closed spec fn from_spec(val: &'a str) -> Protocol {
        arbitrary()
    }
}

impl Protocol {
    /// The protocol name as a string.
    pub fn as_str(&self) -> (r: &str)
        ensures
            r@ == self@,
    {
        self.0.as_str()
    }
}

/// The string conversion keeps the protocol name unchanged.
pub proof fn lemma_protocol_from_string(s: String)
    ensures
        (<Protocol as vstd::std_specs::convert::FromSpec<String>>::from_spec(s))@ == s@,
{
}

/// The model of a relationship filter: the peer role and, optionally, the
/// protocol name.
pub struct RelationshipModel {
    pub role: Role,
    pub protocol: Option<Seq<char>>,
}

/// A combination of protocol and peer role which can match a connection
/// between devices.
#[derive(Debug, Clone)]
pub struct Relationship {
    /// The role of the peer device in the relationship to be discovered.
    pub role: Role,
    /// The protocol that must be spoken between the start device and peer
    /// to include.
    pub protocol: Option<Protocol>,
}

impl View for Relationship {
    type V = RelationshipModel;

    open spec fn view(&self) -> RelationshipModel {
        RelationshipModel {
            role: self.role,
            protocol: match self.protocol {
                Option::Some(p) => Option::Some(p@),
                Option::None => Option::None,
            },
        }
    }
}

impl Relationship {
    /// Create a new `Relationship` for the specified protocol and role.
    pub fn new(protocol: Protocol, role: Role) -> (r: Self)
        ensures
            r@ == (RelationshipModel { role, protocol: Option::Some(protocol@) }),
    {
        Relationship { role, protocol: Option::Some(protocol) }
    }
}

impl Default for Relationship {
    /// Any role, any protocol.
    fn default() -> (r: Self)
        ensures
            r@ == (RelationshipModel { role: Role::Any, protocol: Option::<Seq<char>>::None }),
    {
        Relationship { role: Role::Any, protocol: Option::None }
    }
}

/// Create a relationship matching all peers over the specified protocol,
/// regardless of which device fulfilled which role.
impl From<Protocol> for Relationship {
    fn from(val: Protocol) -> (r: Self) {
        Relationship { role: Role::Any, protocol: Option::Some(val) }
    }
}

impl vstd::std_specs::convert::FromSpecImpl<Protocol> for Relationship {
    open spec fn obeys_from_spec() -> bool {
        true
    }

    open spec fn from_spec(val: Protocol) -> Relationship {
        Relationship { role: Role::Any, protocol: Option::Some(val) }
    }
}

/// Create a new relationship matching any protocol with the specified peer
/// role.
impl From<Role> for Relationship {
    fn from(role: Role) -> (r: Self) {
        Relationship { role, protocol: Option::None }
    }
}

impl vstd::std_specs::convert::FromSpecImpl<Role> for Relationship {
    open spec fn obeys_from_spec() -> bool {
        true
    }

    open spec fn from_spec(role: Role) -> Relationship {
        Relationship { role, protocol: Option::None }
    }
}

impl PartialEq for Relationship {
    fn eq(&self, other: &Self) -> (r: bool) {
        if !(self.role == other.role) {
            return false;
        }
        match (&self.protocol, &other.protocol) {
            (Option::Some(a), Option::Some(b)) => *a == *b,
            (Option::None, Option::None) => true,
            _ => false,
        }
    }
}

impl vstd::std_specs::cmp::PartialEqSpecImpl for Relationship {
    open spec fn obeys_eq_spec() -> bool {
        true
    }

    open spec fn eq_spec(&self, other: &Self) -> bool {
        self@ == other@
    }
}

/// The models of a sequence of relationships.
pub open spec fn rel_models(s: Seq<Relationship>) -> Seq<RelationshipModel> {
    s.map_values(|r: Relationship| r@)
}

/// The model of one traversal step.
pub struct StepModel {
    pub relationships: Seq<RelationshipModel>,
    pub peer_in: Seq<Source>,
    pub peer_not_in: Seq<Source>,
}

/// A traversal instruction which can find new edges or protocols to include
/// in an activity map.
///
/// Each step moves from all the devices found in the previous step along
/// the specified relationships, and then prunes the found edges based on
/// additional filters such as `peer_in` and `peer_not_in`. When both
/// filters are non-empty, an edge must satisfy both checks to be included
/// in the response.
#[derive(Debug, Clone)]
pub struct Step {
    /// If non-empty, limits the protocol and peer role of edges found
    /// during this step.
    pub relationships: Vec<Relationship>,
    /// If non-empty, limits the edges found during this step to those whose
    /// devices are in the specified groups.
    pub peer_in: Vec<Source>,
    /// If non-empty, limits the edges found during this step to those whose
    /// devices are not in the specified groups.
    pub peer_not_in: Vec<Source>,
}

impl View for Step {
    type V = StepModel;

    open spec fn view(&self) -> StepModel {
        StepModel {
            relationships: rel_models(self.relationships@),
            peer_in: self.peer_in@,
            peer_not_in: self.peer_not_in@,
        }
    }
}

impl Default for Step {
    /// A step with no filters: it follows every relationship.
    fn default() -> (r: Self)
        ensures
            r@ == (StepModel {
                relationships: Seq::<RelationshipModel>::empty(),
                peer_in: Seq::<Source>::empty(),
                peer_not_in: Seq::<Source>::empty(),
            }),
    {
        let r = Step { relationships: Vec::new(), peer_in: Vec::new(), peer_not_in: Vec::new() };
        proof {
            assert(rel_models(r.relationships@) =~= Seq::<RelationshipModel>::empty());
        }
        r
    }
}

impl PartialEq for Step {
    fn eq(&self, other: &Self) -> (r: bool) {
        rels_eq(&self.relationships, &other.relationships) && sources_eq(
            &self.peer_in,
            &other.peer_in,
        ) && sources_eq(&self.peer_not_in, &other.peer_not_in)
    }
}

impl vstd::std_specs::cmp::PartialEqSpecImpl for Step {
    open spec fn obeys_eq_spec() -> bool {
        true
    }

    open spec fn eq_spec(&self, other: &Self) -> bool {
        self@ == other@
    }
}

/// Whether two source lists hold the same sources in the same order.
fn sources_eq(a: &Vec<Source>, b: &Vec<Source>) -> (r: bool)
    ensures
        r == (a@ == b@),
{
    if a.len() != b.len() {
        proof {
            if a@ == b@ {
                assert(a@.len() == b@.len());
            }
        }
        return false;
    }
    let mut i: usize = 0;
    while i < a.len()
        invariant
            i <= a@.len(),
            a@.len() == b@.len(),
            forall|k: int| 0 <= k < i ==> a@[k] == b@[k],
        decreases a@.len() - i,
    {
        if !(a[i] == b[i]) {
            return false;
        }
        i += 1;
    }
    proof {
        assert(a@ =~= b@);
    }
    true
}

/// Whether two relationship lists have the same models in the same order.
fn rels_eq(a: &Vec<Relationship>, b: &Vec<Relationship>) -> (r: bool)
    ensures
        r == (rel_models(a@) == rel_models(b@)),
{
    if a.len() != b.len() {
        proof {
            if rel_models(a@) == rel_models(b@) {
                assert(rel_models(a@).len() == rel_models(b@).len());
            }
        }
        return false;
    }
    let mut i: usize = 0;
    while i < a.len()
        invariant
            i <= a@.len(),
            a@.len() == b@.len(),
            forall|k: int| 0 <= k < i ==> a@[k]@ == b@[k]@,
        decreases a@.len() - i,
    {
        if !(a[i] == b[i]) {
            proof {
                if rel_models(a@) == rel_models(b@) {
                    assert(rel_models(a@)[i as int] == rel_models(b@)[i as int]);
                }
            }
            return false;
        }
        i += 1;
    }
    proof {
        assert(rel_models(a@) =~= rel_models(b@));
    }
    true
}

/// The model of a walk's origin set.
pub enum OriginsModel {
    All,
    Specific(Seq<Source>),
}

/// Sets the origins for a walk.
#[derive(Debug, Clone)]
pub enum WalkOrigin {
    /// Starts the walk at every compatible device.
    All,
    /// Starts the walk from the specified devices or compatible members of
    /// the specified groups.
    Specific(Vec<Source>),
}

impl View for WalkOrigin {
    type V = OriginsModel;

    open spec fn view(&self) -> OriginsModel {
        match *self {
            WalkOrigin::All => OriginsModel::All,
            WalkOrigin::Specific(v) => OriginsModel::Specific(v@),
        }
    }
}

impl From<Vec<Source>> for WalkOrigin {
    fn from(val: Vec<Source>) -> (r: Self) {
        WalkOrigin::Specific(val)
    }
}

impl vstd::std_specs::convert::FromSpecImpl<Vec<Source>> for WalkOrigin {
    open spec fn obeys_from_spec() -> bool {
        true
    }

    open spec fn from_spec(val: Vec<Source>) -> WalkOrigin {
        WalkOrigin::Specific(val)
    }
}

impl PartialEq for WalkOrigin {
    fn eq(&self, other: &Self) -> (r: bool) {
        match (self, other) {
            (WalkOrigin::All, WalkOrigin::All) => true,
            (WalkOrigin::Specific(a), WalkOrigin::Specific(b)) => sources_eq(a, b),
            _ => false,
        }
    }
}

impl vstd::std_specs::cmp::PartialEqSpecImpl for WalkOrigin {
    open spec fn obeys_eq_spec() -> bool {
        true
    }

    open spec fn eq_spec(&self, other: &Self) -> bool {
        self@ == other@
    }
}

/// The model of one walk: its origin set and its ordered steps.
pub struct WalkModel {
    pub origins: OriginsModel,
    pub steps: Seq<StepModel>,
}

/// The models of a sequence of steps.
pub open spec fn step_models(s: Seq<Step>) -> Seq<StepModel> {
    s.map_values(|x: Step| x@)
}

/// A set of steps from one or more starting points which build a directed
/// graph topology.
#[derive(Debug, Clone)]
pub struct Walk {
    /// The starting device(s) for the walk.
    pub origins: WalkOrigin,
    /// The ordered set of steps to take away from the walk origins. A walk
    /// with zero steps returns only the origin set's immediate identity.
    pub steps: Vec<Step>,
}

impl View for Walk {
    type V = WalkModel;

    open spec fn view(&self) -> WalkModel {
        WalkModel { origins: self.origins@, steps: step_models(self.steps@) }
    }
}

impl Default for Walk {
    /// A walk from every compatible device, taking no steps.
    fn default() -> (r: Self)
        ensures
            r@ == (WalkModel { origins: OriginsModel::All, steps: Seq::<StepModel>::empty() }),
    {
        let r = Walk { origins: WalkOrigin::All, steps: Vec::new() };
        proof {
            assert(step_models(r.steps@) =~= Seq::<StepModel>::empty());
        }
        r
    }
}

impl PartialEq for Walk {
    fn eq(&self, other: &Self) -> (r: bool) {
        (self.origins == other.origins) && steps_eq(&self.steps, &other.steps)
    }
}

impl vstd::std_specs::cmp::PartialEqSpecImpl for Walk {
    open spec fn obeys_eq_spec() -> bool {
        true
    }

    open spec fn eq_spec(&self, other: &Self) -> bool {
        self@ == other@
    }
}

/// Whether two step lists have the same models in the same order.
fn steps_eq(a: &Vec<Step>, b: &Vec<Step>) -> (r: bool)
    ensures
        r == (step_models(a@) == step_models(b@)),
{
    if a.len() != b.len() {
        proof {
            if step_models(a@) == step_models(b@) {
                assert(step_models(a@).len() == step_models(b@).len());
            }
        }
        return false;
    }
    let mut i: usize = 0;
    while i < a.len()
        invariant
            i <= a@.len(),
            a@.len() == b@.len(),
            forall|k: int| 0 <= k < i ==> a@[k]@ == b@[k]@,
        decreases a@.len() - i,
    {
        if !(a[i] == b[i]) {
            proof {
                if step_models(a@) == step_models(b@) {
                    assert(step_models(a@)[i as int] == step_models(b@)[i as int]);
                }
            }
            return false;
        }
        i += 1;
    }
    proof {
        assert(step_models(a@) =~= step_models(b@));
    }
    true
}

/// The model of a query: its time bounds, its walks, its weighting, and the
/// requested edge annotations.
pub struct QueryModel {
    pub from: TimeModel,
    pub until: TimeModel,
    pub walks: Seq<WalkModel>,
    pub weighting: Weighting,
    pub edge_annotations: Seq<EdgeAnnotation>,
}

impl QueryModel {
    /// Both time bounds satisfy the time invariant.
    pub open spec fn wf(self) -> bool {
        self.from.wf() && self.until.wf()
    }
}

/// The models of a sequence of walks.
pub open spec fn walk_models(s: Seq<Walk>) -> Seq<WalkModel> {
    s.map_values(|x: Walk| x@)
}

/// Envelope for an ad-hoc activity map query.
///
/// If constructed with struct literal syntax, `Query::default()` must be
/// used to fill the remaining fields, to ensure source compatibility with
/// future library updates.
#[derive(Debug, Clone)]
pub struct Query {
    /// The absolute or relative timestamp at which the query should start.
    pub from: QueryTime,
    /// The absolute or relative timestamp at which the query should end. If
    /// not set, defaults to the current packet time of the appliance.
    pub until: QueryTime,
    /// The traversals that should be performed across the topology. Results
    /// from all walks will be merged into a single set of edges in the
    /// response; a walk's position in this list is referenced by response
    /// `Appearance` entries.
    pub walks: Vec<Walk>,
    /// The set of metrics that should drive the weight of an edge.
    pub weighting: Weighting,
    /// The additional data to return for each edge.
    pub edge_annotations: Vec<EdgeAnnotation>,
}

impl View for Query {
    type V = QueryModel;

    open spec fn view(&self) -> QueryModel {
        QueryModel {
            from: self.from@,
            until: self.until@,
            walks: walk_models(self.walks@),
            weighting: self.weighting,
            edge_annotations: self.edge_annotations@,
        }
    }
}

impl Default for Query {
    /// A query over the current packet time with no walks, weighted by
    /// bytes, asking for no annotations.
    fn default() -> (r: Self)
        ensures
            r@ == (QueryModel {
                from: TimeModel::Now,
                until: TimeModel::Now,
                walks: Seq::<WalkModel>::empty(),
                weighting: Weighting::Bytes,
                edge_annotations: Seq::<EdgeAnnotation>::empty(),
            }),
    {
        let r = Query {
            from: QueryTime::default(),
            until: QueryTime::default(),
            walks: Vec::new(),
            weighting: Weighting::Bytes,
            edge_annotations: Vec::new(),
        };
        proof {
            assert(walk_models(r.walks@) =~= Seq::<WalkModel>::empty());
            assert(r.edge_annotations@ =~= Seq::<EdgeAnnotation>::empty());
        }
        r
    }
}

/// A query performing just the one walk, with every other field at its
/// default.
impl From<Walk> for Query {
    fn from(walk: Walk) -> (r: Self)
        ensures
            r@.walks == seq![walk@],
            r@.from == TimeModel::Now,
            r@.until == TimeModel::Now,
            r@.weighting == Weighting::Bytes,
            r@.edge_annotations == Seq::<EdgeAnnotation>::empty(),
    {
        let mut q = Query::default();
        let mut walks: Vec<Walk> = Vec::new();
        walks.push(walk);
        q.walks = walks;
        proof {
            assert(walk_models(q.walks@) =~= seq![walk@]);
        }
        q
    }
}

impl vstd::std_specs::convert::FromSpecImpl<Walk> for Query {
    open spec fn obeys_from_spec() -> bool {
        false
    }

    closed spec fn from_spec(walk: Walk) -> Query {
        arbitrary()
    }
}

impl PartialEq for Query {
    fn eq(&self, other: &Self) -> (r: bool) {
        (self.from == other.from) && (self.until == other.until) && walks_eq(
            &self.walks,
            &other.walks,
        ) && (self.weighting == other.weighting) && annotations_eq(
            &self.edge_annotations,
            &other.edge_annotations,
        )
    }
}

impl vstd::std_specs::cmp::PartialEqSpecImpl for Query {
    open spec fn obeys_eq_spec() -> bool {
        true
    }

    open spec fn eq_spec(&self, other: &Self) -> bool {
        self@ == other@
    }
}

impl Query {
    /// Find the step configuration responsible for a response `Appearance`:
    /// a direct index lookup. Appearances are only produced by the
    /// appliance in direct correspondence to the request it was given, so
    /// an out-of-range walk or step index is a local programming error and
    /// is excluded by contract.
    pub fn index(&self, idx: Appearance) -> (r: &Step)
        requires
            (idx.walk as int) < self@.walks.len(),
            (idx.step as int) < self@.walks[idx.walk as int].steps.len(),
        ensures
            r@ == self@.walks[idx.walk as int].steps[idx.step as int],
    {
        &self.walks[idx.walk as usize].steps[idx.step as usize]
    }
}

/// Whether two walk lists have the same models in the same order.
fn walks_eq(a: &Vec<Walk>, b: &Vec<Walk>) -> (r: bool)
    ensures
        r == (walk_models(a@) == walk_models(b@)),
{
    if a.len() != b.len() {
        proof {
            if walk_models(a@) == walk_models(b@) {
                assert(walk_models(a@).len() == walk_models(b@).len());
            }
        }
        return false;
    }
    let mut i: usize = 0;
    while i < a.len()
        invariant
            i <= a@.len(),
            a@.len() == b@.len(),
            forall|k: int| 0 <= k < i ==> a@[k]@ == b@[k]@,
        decreases a@.len() - i,
    {
        if !(a[i] == b[i]) {
            proof {
                if walk_models(a@) == walk_models(b@) {
                    assert(walk_models(a@)[i as int] == walk_models(b@)[i as int]);
                }
            }
            return false;
        }
        i += 1;
    }
    proof {
        assert(walk_models(a@) =~= walk_models(b@));
    }
    true
}

/// The wire name of an object type.
pub open spec fn object_type_str(t: ObjectType) -> Seq<char> {
    match t {
        ObjectType::Device => "device"@,
        ObjectType::DeviceGroup => "device_group"@,
        ObjectType::ActivityGroup => "activity_group"@,
    }
}

/// The wire name of a peer role.
pub open spec fn role_str(r: Role) -> Seq<char> {
    match r {
        Role::Client => "client"@,
        Role::Server => "server"@,
        Role::Any => "any"@,
    }
}

/// The wire name of a weighting strategy.
pub open spec fn weighting_str(w: Weighting) -> Seq<char> {
    match w {
        Weighting::Bytes => "bytes"@,
        Weighting::Connections => "connections"@,
        Weighting::Turns => "turns"@,
    }
}

/// The wire name of an edge annotation flag.
pub open spec fn annotation_str(a: EdgeAnnotation) -> Seq<char> {
    match a {
        EdgeAnnotation::Appearances => "appearances"@,
        EdgeAnnotation::Protocols => "protocols"@,
    }
}

/// The document a source serializes to.
pub open spec fn source_jval(s: Source) -> JVal {
    JVal::Obj(
        seq![
            ("object_type"@, JVal::Str(object_type_str(s.object_type))),
            ("object_id"@, JVal::Num { neg: false, mag: s.object_id.id() }),
        ],
    )
}

/// The document a relationship serializes to: the role is omitted when it
/// is the implicit default `any`, and the protocol when there is none.
pub open spec fn relationship_jval(r: RelationshipModel) -> JVal {
    JVal::Obj(
        (if r.role == Role::Any {
            Seq::<(Seq<char>, JVal)>::empty()
        } else {
            seq![("role"@, JVal::Str(role_str(r.role)))]
        }) + (match r.protocol {
            Option::Some(p) => seq![("protocol"@, JVal::Str(p))],
            Option::None => Seq::<(Seq<char>, JVal)>::empty(),
        }),
    )
}

/// The document a step serializes to: each filter list is omitted entirely
/// when it is empty.
pub open spec fn step_jval(s: StepModel) -> JVal {
    JVal::Obj(
        (if s.relationships.len() == 0 {
            Seq::<(Seq<char>, JVal)>::empty()
        } else {
            seq![
                (
                    "relationships"@,
                    JVal::Arr(s.relationships.map_values(|r: RelationshipModel| relationship_jval(r))),
                ),
            ]
        }) + (if s.peer_in.len() == 0 {
            Seq::<(Seq<char>, JVal)>::empty()
        } else {
            seq![("peer_in"@, JVal::Arr(s.peer_in.map_values(|x: Source| source_jval(x))))]
        }) + (if s.peer_not_in.len() == 0 {
            Seq::<(Seq<char>, JVal)>::empty()
        } else {
            seq![("peer_not_in"@, JVal::Arr(s.peer_not_in.map_values(|x: Source| source_jval(x))))]
        }),
    )
}

/// The document a walk origin serializes to. The "all compatible devices"
/// origin is a vendor-overloaded wire shape: a list holding a single
/// sentinel object whose `object_type` is `all_devices`.
pub open spec fn origins_jval(o: OriginsModel) -> JVal {
    match o {
        OriginsModel::All => JVal::Arr(
            seq![JVal::Obj(seq![("object_type"@, JVal::Str("all_devices"@))])],
        ),
        OriginsModel::Specific(list) => JVal::Arr(list.map_values(|s: Source| source_jval(s))),
    }
}

/// The document a walk serializes to.
pub open spec fn walk_jval(w: WalkModel) -> JVal {
    JVal::Obj(
        seq![
            ("origins"@, origins_jval(w.origins)),
            ("steps"@, JVal::Arr(w.steps.map_values(|s: StepModel| step_jval(s)))),
        ],
    )
}

/// The document a query serializes to: the time bounds and walks always,
/// the weighting only when it is not the default `bytes`, and the edge
/// annotations only when some were requested.
pub open spec fn query_jval(q: QueryModel) -> JVal {
    JVal::Obj(
        seq![
            ("from"@, q.from.to_jval()),
            ("until"@, q.until.to_jval()),
            ("walks"@, JVal::Arr(q.walks.map_values(|w: WalkModel| walk_jval(w)))),
        ] + (if q.weighting == Weighting::Bytes {
            Seq::<(Seq<char>, JVal)>::empty()
        } else {
            seq![("weighting"@, JVal::Str(weighting_str(q.weighting)))]
        }) + (if q.edge_annotations.len() == 0 {
            Seq::<(Seq<char>, JVal)>::empty()
        } else {
            seq![
                (
                    "edge_annotations"@,
                    JVal::Arr(
                        q.edge_annotations.map_values(|a: EdgeAnnotation| JVal::Str(annotation_str(a))),
                    ),
                ),
            ]
        }),
    )
}

/// The wire name of an object type, as a string.
fn object_type_name(t: ObjectType) -> (r: String)
    ensures
        r@ == object_type_str(t),
{
    match t {
        ObjectType::Device => "device".to_owned(),
        ObjectType::DeviceGroup => "device_group".to_owned(),
        ObjectType::ActivityGroup => "activity_group".to_owned(),
    }
}

/// The wire name of a peer role, as a string.
fn role_name(r: Role) -> (res: String)
    ensures
        res@ == role_str(r),
{
    match r {
        Role::Client => "client".to_owned(),
        Role::Server => "server".to_owned(),
        Role::Any => "any".to_owned(),
    }
}

/// The wire name of a weighting strategy, as a string.
fn weighting_name(w: Weighting) -> (r: String)
    ensures
        r@ == weighting_str(w),
{
    match w {
        Weighting::Bytes => "bytes".to_owned(),
        Weighting::Connections => "connections".to_owned(),
        Weighting::Turns => "turns".to_owned(),
    }
}

/// The wire name of an edge annotation flag, as a string.
fn annotation_name(a: EdgeAnnotation) -> (r: String)
    ensures
        r@ == annotation_str(a),
{
    match a {
        EdgeAnnotation::Appearances => "appearances".to_owned(),
        EdgeAnnotation::Protocols => "protocols".to_owned(),
    }
}

impl Source {
    /// The document this source serializes to.
    pub fn to_json(&self) -> (r: Json)
        ensures
            r@ == source_jval(*self),
    {
        let mut fields: Vec<(String, Json)> = Vec::new();
        fields.push(("object_type".to_owned(), Json::Str(object_type_name(self.object_type))));
        fields.push(
            ("object_id".to_owned(), Json::Num { neg: false, mag: self.object_id.as_u64() }),
        );
        let r = Json::Obj(fields);
        proof {
            lemma_jfields_of_eq(r->Obj_0, source_jval(*self)->Obj_0);
        }
        r
    }
}

/// The documents of a list of sources.
fn sources_to_json(v: &Vec<Source>) -> (r: Vec<Json>)
    ensures
        r@.len() == v@.len(),
        forall|k: int| 0 <= k < v@.len() ==> (#[trigger] r@[k])@ == source_jval(v@[k]),
{
    let mut out: Vec<Json> = Vec::new();
    let mut i: usize = 0;
    while i < v.len()
        invariant
            i <= v@.len(),
            out@.len() == i,
            forall|k: int| 0 <= k < i ==> (#[trigger] out@[k])@ == source_jval(v@[k]),
        decreases v@.len() - i,
    {
        out.push(v[i].to_json());
        i += 1;
    }
    out
}

impl Relationship {
    /// The document this relationship serializes to.
    pub fn to_json(&self) -> (r: Json)
        ensures
            r@ == relationship_jval(self@),
    {
        let mut fields: Vec<(String, Json)> = Vec::new();
        if !(self.role == Role::Any) {
            fields.push(("role".to_owned(), Json::Str(role_name(self.role))));
        }
        match &self.protocol {
            Option::Some(p) => {
                fields.push(("protocol".to_owned(), Json::Str(p.0.clone())));
            },
            Option::None => {},
        }
        let r = Json::Obj(fields);
        proof {
            lemma_jfields_of_eq(r->Obj_0, relationship_jval(self@)->Obj_0);
        }
        r
    }
}

/// The documents of a list of relationships.
fn rels_to_json(v: &Vec<Relationship>) -> (r: Vec<Json>)
    ensures
        r@.len() == v@.len(),
        forall|k: int| 0 <= k < v@.len() ==> (#[trigger] r@[k])@ == relationship_jval(v@[k]@),
{
    let mut out: Vec<Json> = Vec::new();
    let mut i: usize = 0;
    while i < v.len()
        invariant
            i <= v@.len(),
            out@.len() == i,
            forall|k: int| 0 <= k < i ==> (#[trigger] out@[k])@ == relationship_jval(v@[k]@),
        decreases v@.len() - i,
    {
        out.push(v[i].to_json());
        i += 1;
    }
    out
}

impl Step {
    /// The document this step serializes to.
    pub fn to_json(&self) -> (r: Json)
        ensures
            r@ == step_jval(self@),
    {
        let mut fields: Vec<(String, Json)> = Vec::new();
        if self.relationships.len() > 0 {
            let rels = rels_to_json(&self.relationships);
            proof {
                lemma_jvals_of_eq(
                    rels,
                    self@.relationships.map_values(|r: RelationshipModel| relationship_jval(r)),
                );
            }
            fields.push(("relationships".to_owned(), Json::Arr(rels)));
        }
        if self.peer_in.len() > 0 {
            let srcs = sources_to_json(&self.peer_in);
            proof {
                lemma_jvals_of_eq(srcs, self@.peer_in.map_values(|x: Source| source_jval(x)));
            }
            fields.push(("peer_in".to_owned(), Json::Arr(srcs)));
        }
        if self.peer_not_in.len() > 0 {
            let srcs = sources_to_json(&self.peer_not_in);
            proof {
                lemma_jvals_of_eq(srcs, self@.peer_not_in.map_values(|x: Source| source_jval(x)));
            }
            fields.push(("peer_not_in".to_owned(), Json::Arr(srcs)));
        }
        let r = Json::Obj(fields);
        proof {
            lemma_jfields_of_eq(r->Obj_0, step_jval(self@)->Obj_0);
        }
        r
    }
}

/// The documents of a list of steps.
fn steps_to_json(v: &Vec<Step>) -> (r: Vec<Json>)
    ensures
        r@.len() == v@.len(),
        forall|k: int| 0 <= k < v@.len() ==> (#[trigger] r@[k])@ == step_jval(v@[k]@),
{
    let mut out: Vec<Json> = Vec::new();
    let mut i: usize = 0;
    while i < v.len()
        invariant
            i <= v@.len(),
            out@.len() == i,
            forall|k: int| 0 <= k < i ==> (#[trigger] out@[k])@ == step_jval(v@[k]@),
        decreases v@.len() - i,
    {
        out.push(v[i].to_json());
        i += 1;
    }
    out
}

impl WalkOrigin {
    /// The document this origin set serializes to; the "all devices" case
    /// is the sentinel-object list described at [`origins_jval`].
    pub fn to_json(&self) -> (r: Json)
        ensures
            r@ == origins_jval(self@),
    {
        match self {
            WalkOrigin::All => {
                let mut fields: Vec<(String, Json)> = Vec::new();
                fields.push(("object_type".to_owned(), Json::Str("all_devices".to_owned())));
                let sentinel = Json::Obj(fields);
                proof {
                    lemma_jfields_of_eq(
                        sentinel->Obj_0,
                        seq![("object_type"@, JVal::Str("all_devices"@))],
                    );
                }
                let mut items: Vec<Json> = Vec::new();
                items.push(sentinel);
                let r = Json::Arr(items);
                proof {
                    lemma_jvals_of_eq(
                        r->Arr_0,
                        seq![JVal::Obj(seq![("object_type"@, JVal::Str("all_devices"@))])],
                    );
                }
                r
            },
            WalkOrigin::Specific(sources) => {
                let srcs = sources_to_json(sources);
                let r = Json::Arr(srcs);
                proof {
                    lemma_jvals_of_eq(r->Arr_0, sources@.map_values(|s: Source| source_jval(s)));
                }
                r
            },
        }
    }
}

impl Walk {
    /// The document this walk serializes to.
    pub fn to_json(&self) -> (r: Json)
        ensures
            r@ == walk_jval(self@),
    {
        let mut fields: Vec<(String, Json)> = Vec::new();
        fields.push(("origins".to_owned(), self.origins.to_json()));
        let steps = steps_to_json(&self.steps);
        proof {
            lemma_jvals_of_eq(steps, self@.steps.map_values(|s: StepModel| step_jval(s)));
        }
        fields.push(("steps".to_owned(), Json::Arr(steps)));
        let r = Json::Obj(fields);
        proof {
            lemma_jfields_of_eq(r->Obj_0, walk_jval(self@)->Obj_0);
        }
        r
    }
}

/// The documents of a list of walks.
fn walks_to_json(v: &Vec<Walk>) -> (r: Vec<Json>)
    ensures
        r@.len() == v@.len(),
        forall|k: int| 0 <= k < v@.len() ==> (#[trigger] r@[k])@ == walk_jval(v@[k]@),
{
    let mut out: Vec<Json> = Vec::new();
    let mut i: usize = 0;
    while i < v.len()
        invariant
            i <= v@.len(),
            out@.len() == i,
            forall|k: int| 0 <= k < i ==> (#[trigger] out@[k])@ == walk_jval(v@[k]@),
        decreases v@.len() - i,
    {
        out.push(v[i].to_json());
        i += 1;
    }
    out
}

impl Query {
    /// The document this query serializes to; see [`query_jval`] for which
    /// fields are suppressed.
    pub fn to_json(&self) -> (r: Json)
        ensures
            r@ == query_jval(self@),
    {
        let mut fields: Vec<(String, Json)> = Vec::new();
        fields.push(("from".to_owned(), self.from.to_json()));
        fields.push(("until".to_owned(), self.until.to_json()));
        let walks = walks_to_json(&self.walks);
        proof {
            lemma_jvals_of_eq(walks, self@.walks.map_values(|w: WalkModel| walk_jval(w)));
        }
        fields.push(("walks".to_owned(), Json::Arr(walks)));
        if !(self.weighting == Weighting::Bytes) {
            fields.push(("weighting".to_owned(), Json::Str(weighting_name(self.weighting))));
        }
        if self.edge_annotations.len() > 0 {
            let mut anns: Vec<Json> = Vec::new();
            let mut i: usize = 0;
            while i < self.edge_annotations.len()
                invariant
                    i <= self.edge_annotations@.len(),
                    anns@.len() == i,
                    forall|k: int|
                        0 <= k < i ==> (#[trigger] anns@[k])@ == JVal::Str(
                            annotation_str(self.edge_annotations@[k]),
                        ),
                decreases self.edge_annotations@.len() - i,
            {
                anns.push(Json::Str(annotation_name(self.edge_annotations[i])));
                i += 1;
            }
            proof {
                lemma_jvals_of_eq(
                    anns,
                    self@.edge_annotations.map_values(
                        |a: EdgeAnnotation| JVal::Str(annotation_str(a)),
                    ),
                );
            }
            fields.push(("edge_annotations".to_owned(), Json::Arr(anns)));
        }
        let r = Json::Obj(fields);
        proof {
            lemma_jfields_of_eq(r->Obj_0, query_jval(self@)->Obj_0);
        }
        r
    }

    /// The exact wire text of this query.
    pub fn to_json_string(&self) -> (r: String)
        ensures
            r@ == crate::json::text(query_jval(self@)),
    {
        let j = self.to_json();
        crate::json::to_text(&j)
    }
}

/// The object type a document reads back as.
pub open spec fn object_type_of_jval(j: JVal) -> Option<ObjectType> {
    if j == JVal::Str("device"@) {
        Option::Some(ObjectType::Device)
    } else if j == JVal::Str("device_group"@) {
        Option::Some(ObjectType::DeviceGroup)
    } else if j == JVal::Str("activity_group"@) {
        Option::Some(ObjectType::ActivityGroup)
    } else {
        Option::None
    }
}

/// The role a document reads back as.
pub open spec fn role_of_jval(j: JVal) -> Option<Role> {
    if j == JVal::Str("client"@) {
        Option::Some(Role::Client)
    } else if j == JVal::Str("server"@) {
        Option::Some(Role::Server)
    } else if j == JVal::Str("any"@) {
        Option::Some(Role::Any)
    } else {
        Option::None
    }
}

/// The weighting a document reads back as.
pub open spec fn weighting_of_jval(j: JVal) -> Option<Weighting> {
    if j == JVal::Str("bytes"@) {
        Option::Some(Weighting::Bytes)
    } else if j == JVal::Str("connections"@) {
        Option::Some(Weighting::Connections)
    } else if j == JVal::Str("turns"@) {
        Option::Some(Weighting::Turns)
    } else {
        Option::None
    }
}

/// The annotation flag a document reads back as.
pub open spec fn annotation_of_jval(j: JVal) -> Option<EdgeAnnotation> {
    if j == JVal::Str("appearances"@) {
        Option::Some(EdgeAnnotation::Appearances)
    } else if j == JVal::Str("protocols"@) {
        Option::Some(EdgeAnnotation::Protocols)
    } else {
        Option::None
    }
}

/// The source a document reads back as: an object with an `object_type`
/// name and a non-negative `object_id`. Unknown keys are ignored.
pub open spec fn source_of_jval(j: JVal) -> Option<Source> {
    if j is Obj {
        let fs = j->Obj_0;
        match (obj_get(fs, "object_type"@), obj_get(fs, "object_id"@)) {
            (Option::Some(tj), Option::Some(JVal::Num { neg: false, mag })) => match
                object_type_of_jval(tj) {
                Option::Some(t) => Option::Some(
                    Source { object_type: t, object_id: Oid::new_spec(mag) },
                ),
                Option::None => Option::None,
            },
            _ => Option::None,
        }
    } else {
        Option::None
    }
}

/// The sources a list of documents reads back as; any unreadable element
/// drops the whole list.
pub open spec fn sources_of_jvals(items: Seq<JVal>) -> Option<Seq<Source>> {
    if forall|i: int| 0 <= i < items.len() ==> (#[trigger] source_of_jval(items[i])) is Some {
        Option::Some(items.map_values(|j: JVal| source_of_jval(j)->0))
    } else {
        Option::None
    }
}

/// The relationship a document reads back as: a missing role means `any`,
/// a missing protocol means none.
pub open spec fn relationship_of_jval(j: JVal) -> Option<RelationshipModel> {
    if j is Obj {
        let fs = j->Obj_0;
        let role = match obj_get(fs, "role"@) {
            Option::None => Option::Some(Role::Any),
            Option::Some(rj) => role_of_jval(rj),
        };
        let protocol = match obj_get(fs, "protocol"@) {
            Option::None => Option::Some(Option::<Seq<char>>::None),
            Option::Some(JVal::Str(s)) => Option::Some(Option::Some(s)),
            Option::Some(_) => Option::None,
        };
        match (role, protocol) {
            (Option::Some(r), Option::Some(p)) => Option::Some(
                RelationshipModel { role: r, protocol: p },
            ),
            _ => Option::None,
        }
    } else {
        Option::None
    }
}

/// The relationships a list of documents reads back as.
pub open spec fn rels_of_jvals(items: Seq<JVal>) -> Option<Seq<RelationshipModel>> {
    if forall|i: int|
        0 <= i < items.len() ==> (#[trigger] relationship_of_jval(items[i])) is Some {
        Option::Some(items.map_values(|j: JVal| relationship_of_jval(j)->0))
    } else {
        Option::None
    }
}

/// The step a document reads back as: each missing filter list is empty.
pub open spec fn step_of_jval(j: JVal) -> Option<StepModel> {
    if j is Obj {
        let fs = j->Obj_0;
        let rels = match obj_get(fs, "relationships"@) {
            Option::None => Option::Some(Seq::<RelationshipModel>::empty()),
            Option::Some(JVal::Arr(items)) => rels_of_jvals(items),
            Option::Some(_) => Option::None,
        };
        let pin = match obj_get(fs, "peer_in"@) {
            Option::None => Option::Some(Seq::<Source>::empty()),
            Option::Some(JVal::Arr(items)) => sources_of_jvals(items),
            Option::Some(_) => Option::None,
        };
        let pnot = match obj_get(fs, "peer_not_in"@) {
            Option::None => Option::Some(Seq::<Source>::empty()),
            Option::Some(JVal::Arr(items)) => sources_of_jvals(items),
            Option::Some(_) => Option::None,
        };
        match (rels, pin, pnot) {
            (Option::Some(a), Option::Some(b), Option::Some(c)) => Option::Some(
                StepModel { relationships: a, peer_in: b, peer_not_in: c },
            ),
            _ => Option::None,
        }
    } else {
        Option::None
    }
}

/// The steps a list of documents reads back as.
pub open spec fn steps_of_jvals(items: Seq<JVal>) -> Option<Seq<StepModel>> {
    if forall|i: int| 0 <= i < items.len() ==> (#[trigger] step_of_jval(items[i])) is Some {
        Option::Some(items.map_values(|j: JVal| step_of_jval(j)->0))
    } else {
        Option::None
    }
}

/// The origin set a document reads back as. Only the sentinel list shape
/// `[{"object_type":"all_devices"}]` reads as "all compatible devices";
/// anything else must be a list of sources.
pub open spec fn origins_of_jval(j: JVal) -> Option<OriginsModel> {
    if j is Arr {
        let items = j->Arr_0;
        if items.len() == 1 && items[0] is Obj && obj_get(items[0]->Obj_0, "object_type"@)
            == Option::Some(JVal::Str("all_devices"@)) {
            Option::Some(OriginsModel::All)
        } else {
            match sources_of_jvals(items) {
                Option::Some(list) => Option::Some(OriginsModel::Specific(list)),
                Option::None => Option::None,
            }
        }
    } else {
        Option::None
    }
}

/// The walk a document reads back as; both `origins` and `steps` are
/// required.
pub open spec fn walk_of_jval(j: JVal) -> Option<WalkModel> {
    if j is Obj {
        let fs = j->Obj_0;
        match (obj_get(fs, "origins"@), obj_get(fs, "steps"@)) {
            (Option::Some(oj), Option::Some(JVal::Arr(sitems))) => match (
                origins_of_jval(oj),
                steps_of_jvals(sitems),
            ) {
                (Option::Some(o), Option::Some(ss)) => Option::Some(
                    WalkModel { origins: o, steps: ss },
                ),
                _ => Option::None,
            },
            _ => Option::None,
        }
    } else {
        Option::None
    }
}

/// The walks a list of documents reads back as.
pub open spec fn walks_of_jvals(items: Seq<JVal>) -> Option<Seq<WalkModel>> {
    if forall|i: int| 0 <= i < items.len() ==> (#[trigger] walk_of_jval(items[i])) is Some {
        Option::Some(items.map_values(|j: JVal| walk_of_jval(j)->0))
    } else {
        Option::None
    }
}

/// The annotation flags a list of documents reads back as.
pub open spec fn annotations_of_jvals(items: Seq<JVal>) -> Option<Seq<EdgeAnnotation>> {
    if forall|i: int| 0 <= i < items.len() ==> (#[trigger] annotation_of_jval(items[i])) is Some {
        Option::Some(items.map_values(|j: JVal| annotation_of_jval(j)->0))
    } else {
        Option::None
    }
}

/// The query a document reads back as: every field is optional and a
/// missing field takes the backend default.
pub open spec fn query_of_jval(j: JVal) -> Option<QueryModel> {
    if j is Obj {
        let fs = j->Obj_0;
        let from = match obj_get(fs, "from"@) {
            Option::None => Option::Some(TimeModel::Now),
            Option::Some(t) => TimeModel::from_jval(t),
        };
        let until = match obj_get(fs, "until"@) {
            Option::None => Option::Some(TimeModel::Now),
            Option::Some(t) => TimeModel::from_jval(t),
        };
        let walks = match obj_get(fs, "walks"@) {
            Option::None => Option::Some(Seq::<WalkModel>::empty()),
            Option::Some(JVal::Arr(items)) => walks_of_jvals(items),
            Option::Some(_) => Option::None,
        };
        let weighting = match obj_get(fs, "weighting"@) {
            Option::None => Option::Some(Weighting::Bytes),
            Option::Some(wj) => weighting_of_jval(wj),
        };
        let anns = match obj_get(fs, "edge_annotations"@) {
            Option::None => Option::Some(Seq::<EdgeAnnotation>::empty()),
            Option::Some(JVal::Arr(items)) => annotations_of_jvals(items),
            Option::Some(_) => Option::None,
        };
        match (from, until, walks, weighting, anns) {
            (
                Option::Some(f),
                Option::Some(u),
                Option::Some(w),
                Option::Some(g),
                Option::Some(a),
            ) => Option::Some(
                QueryModel { from: f, until: u, walks: w, weighting: g, edge_annotations: a },
            ),
            _ => Option::None,
        }
    } else {
        Option::None
    }
}

/// The wire names that may meet in one object or one value position are
/// pairwise distinct.
proof fn lemma_wire_names_distinct()
    ensures
        "object_type"@ != "object_id"@,
        "role"@ != "protocol"@,
        "relationships"@ != "peer_in"@,
        "relationships"@ != "peer_not_in"@,
        "peer_in"@ != "peer_not_in"@,
        "origins"@ != "steps"@,
        "from"@ != "until"@,
        "from"@ != "walks"@,
        "from"@ != "weighting"@,
        "from"@ != "edge_annotations"@,
        "until"@ != "walks"@,
        "until"@ != "weighting"@,
        "until"@ != "edge_annotations"@,
        "walks"@ != "weighting"@,
        "walks"@ != "edge_annotations"@,
        "weighting"@ != "edge_annotations"@,
        "device"@ != "device_group"@,
        "device"@ != "activity_group"@,
        "device_group"@ != "activity_group"@,
        "all_devices"@ != "device"@,
        "all_devices"@ != "device_group"@,
        "all_devices"@ != "activity_group"@,
        "bytes"@ != "connections"@,
        "bytes"@ != "turns"@,
        "connections"@ != "turns"@,
        "client"@ != "server"@,
        "client"@ != "any"@,
        "server"@ != "any"@,
        "appearances"@ != "protocols"@,
{
    reveal_strlit("object_type");
    reveal_strlit("object_id");
    reveal_strlit("role");
    reveal_strlit("protocol");
    reveal_strlit("relationships");
    reveal_strlit("peer_in");
    reveal_strlit("peer_not_in");
    reveal_strlit("origins");
    reveal_strlit("steps");
    reveal_strlit("from");
    reveal_strlit("until");
    reveal_strlit("walks");
    reveal_strlit("weighting");
    reveal_strlit("edge_annotations");
    reveal_strlit("device");
    reveal_strlit("device_group");
    reveal_strlit("activity_group");
    reveal_strlit("all_devices");
    reveal_strlit("bytes");
    reveal_strlit("connections");
    reveal_strlit("turns");
    reveal_strlit("client");
    reveal_strlit("server");
    reveal_strlit("any");
    reveal_strlit("appearances");
    reveal_strlit("protocols");
    assert("object_type"@.len() == 11 && "object_id"@.len() == 9);
    assert("role"@.len() == 4 && "protocol"@.len() == 8);
    assert("relationships"@.len() == 13 && "peer_in"@.len() == 7 && "peer_not_in"@.len() == 11);
    assert("origins"@.len() == 7 && "steps"@.len() == 5);
    assert("from"@.len() == 4 && "until"@.len() == 5 && "walks"@.len() == 5 && "weighting"@.len()
        == 9 && "edge_annotations"@.len() == 16);
    assert("until"@[0] == 'u' && "walks"@[0] == 'w');
    assert("device"@.len() == 6 && "device_group"@.len() == 12 && "activity_group"@.len() == 14
        && "all_devices"@.len() == 11);
    assert("bytes"@.len() == 5 && "connections"@.len() == 11 && "turns"@.len() == 5);
    assert("bytes"@[0] == 'b' && "turns"@[0] == 't');
    assert("client"@.len() == 6 && "server"@.len() == 6 && "any"@.len() == 3);
    assert("client"@[0] == 'c' && "server"@[0] == 's');
    assert("appearances"@.len() == 11 && "protocols"@.len() == 9);
}

/// Reads an object type name back from a document.
fn object_type_from_json(j: &Json) -> (r: Option<ObjectType>)
    ensures
        r == object_type_of_jval(j@),
{
    match j {
        Json::Str(s) => {
            if str_eq(s.as_str(), "device") {
                Option::Some(ObjectType::Device)
            } else if str_eq(s.as_str(), "device_group") {
                Option::Some(ObjectType::DeviceGroup)
            } else if str_eq(s.as_str(), "activity_group") {
                Option::Some(ObjectType::ActivityGroup)
            } else {
                Option::None
            }
        },
        _ => Option::None,
    }
}

/// Reads a role name back from a document.
fn role_from_json(j: &Json) -> (r: Option<Role>)
    ensures
        r == role_of_jval(j@),
{
    match j {
        Json::Str(s) => {
            if str_eq(s.as_str(), "client") {
                Option::Some(Role::Client)
            } else if str_eq(s.as_str(), "server") {
                Option::Some(Role::Server)
            } else if str_eq(s.as_str(), "any") {
                Option::Some(Role::Any)
            } else {
                Option::None
            }
        },
        _ => Option::None,
    }
}

/// Reads a weighting name back from a document.
fn weighting_from_json(j: &Json) -> (r: Option<Weighting>)
    ensures
        r == weighting_of_jval(j@),
{
    match j {
        Json::Str(s) => {
            if str_eq(s.as_str(), "bytes") {
                Option::Some(Weighting::Bytes)
            } else if str_eq(s.as_str(), "connections") {
                Option::Some(Weighting::Connections)
            } else if str_eq(s.as_str(), "turns") {
                Option::Some(Weighting::Turns)
            } else {
                Option::None
            }
        },
        _ => Option::None,
    }
}

/// Reads an annotation flag name back from a document.
fn annotation_from_json(j: &Json) -> (r: Option<EdgeAnnotation>)
    ensures
        r == annotation_of_jval(j@),
{
    match j {
        Json::Str(s) => {
            if str_eq(s.as_str(), "appearances") {
                Option::Some(EdgeAnnotation::Appearances)
            } else if str_eq(s.as_str(), "protocols") {
                Option::Some(EdgeAnnotation::Protocols)
            } else {
                Option::None
            }
        },
        _ => Option::None,
    }
}

impl Source {
    /// Reads a source back from a document.
    pub fn from_json(j: &Json) -> (r: Option<Source>)
        ensures
            r == source_of_jval(j@),
    {
        match j {
            Json::Obj(_) => {},
            _ => {
                return Option::None;
            },
        }
        let tj = match j.get_field("object_type") {
            Option::Some(v) => v,
            Option::None => {
                return Option::None;
            },
        };
        let t = match object_type_from_json(tj) {
            Option::Some(t) => t,
            Option::None => {
                return Option::None;
            },
        };
        let idj = match j.get_field("object_id") {
            Option::Some(v) => v,
            Option::None => {
                return Option::None;
            },
        };
        match idj {
            Json::Num { neg, mag } => {
                if !*neg {
                    Option::Some(Source::new(t, Oid::new(*mag)))
                } else {
                    Option::None
                }
            },
            _ => Option::None,
        }
    }
}

/// Reads a list of sources back from array items.
fn parse_sources(items: &Vec<Json>) -> (r: Option<Vec<Source>>)
    ensures
        match r {
            Option::Some(v) => sources_of_jvals(jvals_of(*items, items@.len() as int))
                == Option::Some(v@),
            Option::None => sources_of_jvals(jvals_of(*items, items@.len() as int)) is None,
        },
{
    let ghost s: Seq<JVal> = jvals_of(*items, items@.len() as int);
    proof {
        crate::json::lemma_jvals_of_len(*items, items@.len() as int);
    }
    let mut out: Vec<Source> = Vec::new();
    let mut i: usize = 0;
    while i < items.len()
        invariant
            i <= items@.len(),
            s == jvals_of(*items, items@.len() as int),
            s.len() == items@.len(),
            out@.len() == i,
            forall|k: int| 0 <= k < i ==> #[trigger] source_of_jval(s[k]) == Option::Some(out@[k]),
        decreases items@.len() - i,
    {
        proof {
            crate::json::lemma_jvals_of_index(*items, items@.len() as int, i as int);
        }
        match Source::from_json(&items[i]) {
            Option::Some(x) => {
                out.push(x);
            },
            Option::None => {
                proof {
                    assert(source_of_jval(s[i as int]) is None);
                }
                return Option::None;
            },
        }
        i += 1;
    }
    proof {
        assert(forall|k: int| 0 <= k < s.len() ==> (#[trigger] source_of_jval(s[k])) is Some);
        assert(s.map_values(|j: JVal| source_of_jval(j)->0) =~= out@);
    }
    Option::Some(out)
}

impl Relationship {
    /// Reads a relationship back from a document.
    pub fn from_json(j: &Json) -> (r: Option<Relationship>)
        ensures
            match r {
                Option::Some(x) => relationship_of_jval(j@) == Option::Some(x@),
                Option::None => relationship_of_jval(j@) is None,
            },
    {
        match j {
            Json::Obj(_) => {},
            _ => {
                return Option::None;
            },
        }
        let role = match j.get_field("role") {
            Option::None => Role::Any,
            Option::Some(rj) => match role_from_json(rj) {
                Option::Some(ro) => ro,
                Option::None => {
                    return Option::None;
                },
            },
        };
        let protocol: Option<Protocol> = match j.get_field("protocol") {
            Option::None => Option::None,
            Option::Some(pj) => match pj {
                Json::Str(ps) => Option::Some(Protocol(ps.clone())),
                _ => {
                    return Option::None;
                },
            },
        };
        Option::Some(Relationship { role, protocol })
    }
}

/// Reads a list of relationships back from array items.
fn parse_rels(items: &Vec<Json>) -> (r: Option<Vec<Relationship>>)
    ensures
        match r {
            Option::Some(v) => rels_of_jvals(jvals_of(*items, items@.len() as int))
                == Option::Some(rel_models(v@)),
            Option::None => rels_of_jvals(jvals_of(*items, items@.len() as int)) is None,
        },
{
    let ghost s: Seq<JVal> = jvals_of(*items, items@.len() as int);
    proof {
        crate::json::lemma_jvals_of_len(*items, items@.len() as int);
    }
    let mut out: Vec<Relationship> = Vec::new();
    let mut i: usize = 0;
    while i < items.len()
        invariant
            i <= items@.len(),
            s == jvals_of(*items, items@.len() as int),
            s.len() == items@.len(),
            out@.len() == i,
            forall|k: int|
                0 <= k < i ==> #[trigger] relationship_of_jval(s[k]) == Option::Some(out@[k]@),
        decreases items@.len() - i,
    {
        proof {
            crate::json::lemma_jvals_of_index(*items, items@.len() as int, i as int);
        }
        match Relationship::from_json(&items[i]) {
            Option::Some(x) => {
                out.push(x);
            },
            Option::None => {
                proof {
                    assert(relationship_of_jval(s[i as int]) is None);
                }
                return Option::None;
            },
        }
        i += 1;
    }
    proof {
        assert(forall|k: int|
            0 <= k < s.len() ==> (#[trigger] relationship_of_jval(s[k])) is Some);
        assert(s.map_values(|j: JVal| relationship_of_jval(j)->0) =~= rel_models(out@));
    }
    Option::Some(out)
}

impl Step {
    /// Reads a step back from a document.
    pub fn from_json(j: &Json) -> (r: Option<Step>)
        ensures
            match r {
                Option::Some(x) => step_of_jval(j@) == Option::Some(x@),
                Option::None => step_of_jval(j@) is None,
            },
    {
        match j {
            Json::Obj(_) => {},
            _ => {
                return Option::None;
            },
        }
        let relationships: Vec<Relationship> = match j.get_field("relationships") {
            Option::None => Vec::new(),
            Option::Some(v) => match v {
                Json::Arr(items) => match parse_rels(items) {
                    Option::Some(v) => v,
                    Option::None => {
                        return Option::None;
                    },
                },
                _ => {
                    return Option::None;
                },
            },
        };
        let peer_in: Vec<Source> = match j.get_field("peer_in") {
            Option::None => Vec::new(),
            Option::Some(v) => match v {
                Json::Arr(items) => match parse_sources(items) {
                    Option::Some(v) => v,
                    Option::None => {
                        return Option::None;
                    },
                },
                _ => {
                    return Option::None;
                },
            },
        };
        let peer_not_in: Vec<Source> = match j.get_field("peer_not_in") {
            Option::None => Vec::new(),
            Option::Some(v) => match v {
                Json::Arr(items) => match parse_sources(items) {
                    Option::Some(v) => v,
                    Option::None => {
                        return Option::None;
                    },
                },
                _ => {
                    return Option::None;
                },
            },
        };
        let r = Step { relationships, peer_in, peer_not_in };
        proof {
            assert(rel_models(Seq::<Relationship>::empty()) =~= Seq::<RelationshipModel>::empty());
        }
        Option::Some(r)
    }
}

/// Reads a list of steps back from array items.
fn parse_steps(items: &Vec<Json>) -> (r: Option<Vec<Step>>)
    ensures
        match r {
            Option::Some(v) => steps_of_jvals(jvals_of(*items, items@.len() as int))
                == Option::Some(step_models(v@)),
            Option::None => steps_of_jvals(jvals_of(*items, items@.len() as int)) is None,
        },
{
    let ghost s: Seq<JVal> = jvals_of(*items, items@.len() as int);
    proof {
        crate::json::lemma_jvals_of_len(*items, items@.len() as int);
    }
    let mut out: Vec<Step> = Vec::new();
    let mut i: usize = 0;
    while i < items.len()
        invariant
            i <= items@.len(),
            s == jvals_of(*items, items@.len() as int),
            s.len() == items@.len(),
            out@.len() == i,
            forall|k: int| 0 <= k < i ==> #[trigger] step_of_jval(s[k]) == Option::Some(out@[k]@),
        decreases items@.len() - i,
    {
        proof {
            crate::json::lemma_jvals_of_index(*items, items@.len() as int, i as int);
        }
        match Step::from_json(&items[i]) {
            Option::Some(x) => {
                out.push(x);
            },
            Option::None => {
                proof {
                    assert(step_of_jval(s[i as int]) is None);
                }
                return Option::None;
            },
        }
        i += 1;
    }
    proof {
        assert(forall|k: int| 0 <= k < s.len() ==> (#[trigger] step_of_jval(s[k])) is Some);
        assert(s.map_values(|j: JVal| step_of_jval(j)->0) =~= step_models(out@));
    }
    Option::Some(out)
}

impl WalkOrigin {
    /// Reads an origin set back from a document; only the sentinel list
    /// shape reads as "all compatible devices".
    pub fn from_json(j: &Json) -> (r: Option<WalkOrigin>)
        ensures
            match r {
                Option::Some(x) => origins_of_jval(j@) == Option::Some(x@),
                Option::None => origins_of_jval(j@) is None,
            },
    {
        let items = match j {
            Json::Arr(items) => items,
            _ => {
                return Option::None;
            },
        };
        let ghost s: Seq<JVal> = jvals_of(*items, items@.len() as int);
        proof {
            crate::json::lemma_jvals_of_len(*items, items@.len() as int);
        }
        if items.len() == 1 {
            proof {
                crate::json::lemma_jvals_of_index(*items, items@.len() as int, 0);
            }
            match items[0].get_field("object_type") {
                Option::Some(v) => match v {
                    Json::Str(name) => {
                        if str_eq(name.as_str(), "all_devices") {
                            return Option::Some(WalkOrigin::All);
                        }
                    },
                    _ => {},
                },
                Option::None => {},
            }
        }
        match parse_sources(items) {
            Option::Some(list) => Option::Some(WalkOrigin::Specific(list)),
            Option::None => Option::None,
        }
    }
}

impl Walk {
    /// Reads a walk back from a document; both `origins` and `steps` are
    /// required.
    pub fn from_json(j: &Json) -> (r: Option<Walk>)
        ensures
            match r {
                Option::Some(x) => walk_of_jval(j@) == Option::Some(x@),
                Option::None => walk_of_jval(j@) is None,
            },
    {
        match j {
            Json::Obj(_) => {},
            _ => {
                return Option::None;
            },
        }
        let origins = match j.get_field("origins") {
            Option::Some(oj) => match WalkOrigin::from_json(oj) {
                Option::Some(o) => o,
                Option::None => {
                    return Option::None;
                },
            },
            Option::None => {
                return Option::None;
            },
        };
        let steps: Vec<Step> = match j.get_field("steps") {
            Option::Some(v) => match v {
                Json::Arr(items) => match parse_steps(items) {
                    Option::Some(v) => v,
                    Option::None => {
                        return Option::None;
                    },
                },
                _ => {
                    return Option::None;
                },
            },
            Option::None => {
                return Option::None;
            },
        };
        Option::Some(Walk { origins, steps })
    }
}

/// Reads a list of walks back from array items.
fn parse_walks(items: &Vec<Json>) -> (r: Option<Vec<Walk>>)
    ensures
        match r {
            Option::Some(v) => walks_of_jvals(jvals_of(*items, items@.len() as int))
                == Option::Some(walk_models(v@)),
            Option::None => walks_of_jvals(jvals_of(*items, items@.len() as int)) is None,
        },
{
    let ghost s: Seq<JVal> = jvals_of(*items, items@.len() as int);
    proof {
        crate::json::lemma_jvals_of_len(*items, items@.len() as int);
    }
    let mut out: Vec<Walk> = Vec::new();
    let mut i: usize = 0;
    while i < items.len()
        invariant
            i <= items@.len(),
            s == jvals_of(*items, items@.len() as int),
            s.len() == items@.len(),
            out@.len() == i,
            forall|k: int| 0 <= k < i ==> #[trigger] walk_of_jval(s[k]) == Option::Some(out@[k]@),
        decreases items@.len() - i,
    {
        proof {
            crate::json::lemma_jvals_of_index(*items, items@.len() as int, i as int);
        }
        match Walk::from_json(&items[i]) {
            Option::Some(x) => {
                out.push(x);
            },
            Option::None => {
                proof {
                    assert(walk_of_jval(s[i as int]) is None);
                }
                return Option::None;
            },
        }
        i += 1;
    }
    proof {
        assert(forall|k: int| 0 <= k < s.len() ==> (#[trigger] walk_of_jval(s[k])) is Some);
        assert(s.map_values(|j: JVal| walk_of_jval(j)->0) =~= walk_models(out@));
    }
    Option::Some(out)
}

/// Reads a list of annotation flags back from array items.
fn parse_annotations(items: &Vec<Json>) -> (r: Option<Vec<EdgeAnnotation>>)
    ensures
        match r {
            Option::Some(v) => annotations_of_jvals(jvals_of(*items, items@.len() as int))
                == Option::Some(v@),
            Option::None => annotations_of_jvals(jvals_of(*items, items@.len() as int)) is None,
        },
{
    let ghost s: Seq<JVal> = jvals_of(*items, items@.len() as int);
    proof {
        crate::json::lemma_jvals_of_len(*items, items@.len() as int);
    }
    let mut out: Vec<EdgeAnnotation> = Vec::new();
    let mut i: usize = 0;
    while i < items.len()
        invariant
            i <= items@.len(),
            s == jvals_of(*items, items@.len() as int),
            s.len() == items@.len(),
            out@.len() == i,
            forall|k: int|
                0 <= k < i ==> #[trigger] annotation_of_jval(s[k]) == Option::Some(out@[k]),
        decreases items@.len() - i,
    {
        proof {
            crate::json::lemma_jvals_of_index(*items, items@.len() as int, i as int);
        }
        match annotation_from_json(&items[i]) {
            Option::Some(x) => {
                out.push(x);
            },
            Option::None => {
                proof {
                    assert(annotation_of_jval(s[i as int]) is None);
                }
                return Option::None;
            },
        }
        i += 1;
    }
    proof {
        assert(forall|k: int|
            0 <= k < s.len() ==> (#[trigger] annotation_of_jval(s[k])) is Some);
        assert(s.map_values(|j: JVal| annotation_of_jval(j)->0) =~= out@);
    }
    Option::Some(out)
}

impl Query {
    /// Reads a query back from a document: every field is optional and a
    /// missing field takes the backend default.
    pub fn from_json(j: &Json) -> (r: Option<Query>)
        ensures
            match r {
                Option::Some(x) => query_of_jval(j@) == Option::Some(x@),
                Option::None => query_of_jval(j@) is None,
            },
    {
        match j {
            Json::Obj(_) => {},
            _ => {
                return Option::None;
            },
        }
        let from = match j.get_field("from") {
            Option::None => QueryTime::default(),
            Option::Some(t) => match QueryTime::from_json(t) {
                Option::Some(t) => t,
                Option::None => {
                    return Option::None;
                },
            },
        };
        let until = match j.get_field("until") {
            Option::None => QueryTime::default(),
            Option::Some(t) => match QueryTime::from_json(t) {
                Option::Some(t) => t,
                Option::None => {
                    return Option::None;
                },
            },
        };
        let walks: Vec<Walk> = match j.get_field("walks") {
            Option::None => Vec::new(),
            Option::Some(v) => match v {
                Json::Arr(items) => match parse_walks(items) {
                    Option::Some(v) => v,
                    Option::None => {
                        return Option::None;
                    },
                },
                _ => {
                    return Option::None;
                },
            },
        };
        let weighting = match j.get_field("weighting") {
            Option::None => Weighting::Bytes,
            Option::Some(wj) => match weighting_from_json(wj) {
                Option::Some(w) => w,
                Option::None => {
                    return Option::None;
                },
            },
        };
        let edge_annotations: Vec<EdgeAnnotation> = match j.get_field("edge_annotations") {
            Option::None => Vec::new(),
            Option::Some(v) => match v {
                Json::Arr(items) => match parse_annotations(items) {
                    Option::Some(v) => v,
                    Option::None => {
                        return Option::None;
                    },
                },
                _ => {
                    return Option::None;
                },
            },
        };
        let r = Query { from, until, walks, weighting, edge_annotations };
        proof {
            assert(walk_models(Seq::<Walk>::empty()) =~= Seq::<WalkModel>::empty());
        }
        Option::Some(r)
    }

    /// Reads a query back from wire text.
    pub fn from_json_text(s: &str) -> (r: Option<Query>)
        ensures
            match r {
                Option::Some(q) => crate::json::json_of_text(s@) is Some && query_of_jval(
                    crate::json::json_of_text(s@)->0,
                ) == Option::Some(q@),
                Option::None => crate::json::json_of_text(s@) is None || query_of_jval(
                    crate::json::json_of_text(s@)->0,
                ) is None,
            },
    {
        match crate::json::parse_text(s) {
            Option::Some(j) => Query::from_json(&j),
            Option::None => Option::None,
        }
    }
}

/// The "all compatible devices" origin serializes to exactly the sentinel
/// list `[{"object_type":"all_devices"}]`.
pub proof fn lemma_all_devices_wire_text()
    ensures
        crate::json::text(origins_jval(OriginsModel::All)) == "[{\"object_type\":\"all_devices\"}]"@,
{
    reveal_strlit("object_type");
    reveal_strlit("all_devices");
    reveal_strlit("[{\"object_type\":\"all_devices\"}]");
    assert(forall|k: int|
        0 <= k < "object_type"@.len() ==> crate::json::plain_char(#[trigger] "object_type"@[k]));
    assert(forall|k: int|
        0 <= k < "all_devices"@.len() ==> crate::json::plain_char(#[trigger] "all_devices"@[k]));
    crate::json::lemma_quoted_plain("object_type"@);
    crate::json::lemma_quoted_plain("all_devices"@);
    let field = ("object_type"@, JVal::Str("all_devices"@));
    let sentinel = JVal::Obj(seq![field]);
    assert(crate::json::text(JVal::Str("all_devices"@)) == crate::json::quoted("all_devices"@));
    assert(crate::json::field_text(field) == crate::json::quoted("object_type"@) + seq![':']
        + crate::json::quoted("all_devices"@));
    assert(crate::json::text(sentinel) == seq!['{'] + crate::json::fields_text(seq![field], 1)
        + seq!['}']);
    assert(crate::json::text(origins_jval(OriginsModel::All)) == seq!['[']
        + crate::json::items_text(seq![sentinel], 1) + seq![']']);
    assert(crate::json::text(origins_jval(OriginsModel::All))
        =~= "[{\"object_type\":\"all_devices\"}]"@);
}

/// A serialized source reads back unchanged.
pub proof fn lemma_source_round_trip(s: Source)
    ensures
        source_of_jval(source_jval(s)) == Option::Some(s),
{
    lemma_wire_names_distinct();
    let fs = source_jval(s)->Obj_0;
    lemma_obj_get_at(fs, "object_type"@, 0);
    lemma_obj_get_at(fs, "object_id"@, 1);
    assert(object_type_of_jval(JVal::Str(object_type_str(s.object_type))) == Option::Some(
        s.object_type,
    ));
    crate::oid::lemma_oid_value(s.object_id.id(), s.object_id);
}

/// A serialized source list reads back unchanged.
pub proof fn lemma_sources_list_round_trip(list: Seq<Source>)
    ensures
        sources_of_jvals(list.map_values(|s: Source| source_jval(s))) == Option::Some(list),
{
    let items = list.map_values(|s: Source| source_jval(s));
    assert forall|i: int|
        0 <= i < items.len() implies (#[trigger] source_of_jval(items[i])) is Some by {
        lemma_source_round_trip(list[i]);
    }
    let parsed = items.map_values(|j: JVal| source_of_jval(j)->0);
    assert forall|i: int| 0 <= i < list.len() implies parsed[i] == list[i] by {
        lemma_source_round_trip(list[i]);
    }
    assert(parsed =~= list);
}

/// A serialized relationship reads back unchanged.
pub proof fn lemma_relationship_round_trip(r: RelationshipModel)
    ensures
        relationship_of_jval(relationship_jval(r)) == Option::Some(r),
{
    lemma_wire_names_distinct();
    let fs = relationship_jval(r)->Obj_0;
    if r.role == Role::Any {
        match r.protocol {
            Option::Some(p) => {
                assert(fs =~= seq![("protocol"@, JVal::Str(p))]);
                lemma_obj_get_none(fs, "role"@);
                lemma_obj_get_at(fs, "protocol"@, 0);
            },
            Option::None => {
                assert(fs =~= Seq::<(Seq<char>, JVal)>::empty());
                lemma_obj_get_none(fs, "role"@);
                lemma_obj_get_none(fs, "protocol"@);
            },
        }
    } else {
        match r.protocol {
            Option::Some(p) => {
                assert(fs =~= seq![
                    ("role"@, JVal::Str(role_str(r.role))),
                    ("protocol"@, JVal::Str(p)),
                ]);
                lemma_obj_get_at(fs, "role"@, 0);
                lemma_obj_get_at(fs, "protocol"@, 1);
            },
            Option::None => {
                assert(fs =~= seq![("role"@, JVal::Str(role_str(r.role)))]);
                lemma_obj_get_at(fs, "role"@, 0);
                lemma_obj_get_none(fs, "protocol"@);
            },
        }
    }
}

/// A serialized relationship list reads back unchanged.
pub proof fn lemma_rels_list_round_trip(list: Seq<RelationshipModel>)
    ensures
        rels_of_jvals(list.map_values(|r: RelationshipModel| relationship_jval(r)))
            == Option::Some(list),
{
    let items = list.map_values(|r: RelationshipModel| relationship_jval(r));
    assert forall|i: int|
        0 <= i < items.len() implies (#[trigger] relationship_of_jval(items[i])) is Some by {
        lemma_relationship_round_trip(list[i]);
    }
    let parsed = items.map_values(|j: JVal| relationship_of_jval(j)->0);
    assert forall|i: int| 0 <= i < list.len() implies parsed[i] == list[i] by {
        lemma_relationship_round_trip(list[i]);
    }
    assert(parsed =~= list);
}

/// A serialized step reads back unchanged, and each suppressed filter list
/// leaves no key behind.
pub proof fn lemma_step_round_trip(s: StepModel)
    ensures
        step_of_jval(step_jval(s)) == Option::Some(s),
        s.relationships.len() == 0 ==> obj_get(step_jval(s)->Obj_0, "relationships"@) is None,
        s.peer_in.len() == 0 ==> obj_get(step_jval(s)->Obj_0, "peer_in"@) is None,
        s.peer_not_in.len() == 0 ==> obj_get(step_jval(s)->Obj_0, "peer_not_in"@) is None,
{
    lemma_wire_names_distinct();
    let fs = step_jval(s)->Obj_0;
    let n1: int = if s.relationships.len() == 0 {
        0
    } else {
        1
    };
    let n2: int = if s.peer_in.len() == 0 {
        0
    } else {
        1
    };
    if s.relationships.len() == 0 {
        lemma_obj_get_none(fs, "relationships"@);
        assert(s.relationships =~= Seq::<RelationshipModel>::empty());
    } else {
        lemma_obj_get_at(fs, "relationships"@, 0);
        lemma_rels_list_round_trip(s.relationships);
    }
    if s.peer_in.len() == 0 {
        lemma_obj_get_none(fs, "peer_in"@);
        assert(s.peer_in =~= Seq::<Source>::empty());
    } else {
        lemma_obj_get_at(fs, "peer_in"@, n1);
        lemma_sources_list_round_trip(s.peer_in);
    }
    if s.peer_not_in.len() == 0 {
        lemma_obj_get_none(fs, "peer_not_in"@);
        assert(s.peer_not_in =~= Seq::<Source>::empty());
    } else {
        lemma_obj_get_at(fs, "peer_not_in"@, n1 + n2);
        lemma_sources_list_round_trip(s.peer_not_in);
    }
}

/// A serialized step list reads back unchanged.
pub proof fn lemma_steps_list_round_trip(list: Seq<StepModel>)
    ensures
        steps_of_jvals(list.map_values(|s: StepModel| step_jval(s))) == Option::Some(list),
{
    let items = list.map_values(|s: StepModel| step_jval(s));
    assert forall|i: int|
        0 <= i < items.len() implies (#[trigger] step_of_jval(items[i])) is Some by {
        lemma_step_round_trip(list[i]);
    }
    let parsed = items.map_values(|j: JVal| step_of_jval(j)->0);
    assert forall|i: int| 0 <= i < list.len() implies parsed[i] == list[i] by {
        lemma_step_round_trip(list[i]);
    }
    assert(parsed =~= list);
}

/// A serialized origin set reads back unchanged: the sentinel list shape
/// is recognized as "all devices", and a plain source list never collides
/// with it.
pub proof fn lemma_origins_round_trip(o: OriginsModel)
    ensures
        origins_of_jval(origins_jval(o)) == Option::Some(o),
{
    lemma_wire_names_distinct();
    match o {
        OriginsModel::All => {
            let sentinel_fields = seq![("object_type"@, JVal::Str("all_devices"@))];
            lemma_obj_get_at(sentinel_fields, "object_type"@, 0);
        },
        OriginsModel::Specific(list) => {
            let items = list.map_values(|s: Source| source_jval(s));
            if items.len() == 1 {
                let fs = source_jval(list[0])->Obj_0;
                lemma_obj_get_at(fs, "object_type"@, 0);
                assert(obj_get(items[0]->Obj_0, "object_type"@) != Option::Some(
                    JVal::Str("all_devices"@),
                ));
            }
            lemma_sources_list_round_trip(list);
        },
    }
}

/// A serialized walk reads back unchanged.
pub proof fn lemma_walk_round_trip(w: WalkModel)
    ensures
        walk_of_jval(walk_jval(w)) == Option::Some(w),
{
    lemma_wire_names_distinct();
    let fs = walk_jval(w)->Obj_0;
    lemma_obj_get_at(fs, "origins"@, 0);
    lemma_obj_get_at(fs, "steps"@, 1);
    lemma_origins_round_trip(w.origins);
    lemma_steps_list_round_trip(w.steps);
}

/// A serialized walk list reads back unchanged.
pub proof fn lemma_walks_list_round_trip(list: Seq<WalkModel>)
    ensures
        walks_of_jvals(list.map_values(|w: WalkModel| walk_jval(w))) == Option::Some(list),
{
    let items = list.map_values(|w: WalkModel| walk_jval(w));
    assert forall|i: int|
        0 <= i < items.len() implies (#[trigger] walk_of_jval(items[i])) is Some by {
        lemma_walk_round_trip(list[i]);
    }
    let parsed = items.map_values(|j: JVal| walk_of_jval(j)->0);
    assert forall|i: int| 0 <= i < list.len() implies parsed[i] == list[i] by {
        lemma_walk_round_trip(list[i]);
    }
    assert(parsed =~= list);
}

/// A serialized annotation list reads back unchanged.
pub proof fn lemma_annotations_list_round_trip(list: Seq<EdgeAnnotation>)
    ensures
        annotations_of_jvals(
            list.map_values(|a: EdgeAnnotation| JVal::Str(annotation_str(a))),
        ) == Option::Some(list),
{
    lemma_wire_names_distinct();
    let items = list.map_values(|a: EdgeAnnotation| JVal::Str(annotation_str(a)));
    assert forall|i: int|
        0 <= i < items.len() implies (#[trigger] annotation_of_jval(items[i])) is Some by {
        assert(items[i] == JVal::Str(annotation_str(list[i])));
    }
    let parsed = items.map_values(|j: JVal| annotation_of_jval(j)->0);
    assert forall|i: int| 0 <= i < list.len() implies parsed[i] == list[i] by {
        assert(items[i] == JVal::Str(annotation_str(list[i])));
    }
    assert(parsed =~= list);
}

/// Serializing a well-formed query and reading the document back yields
/// the query unchanged; and a default weighting or an empty annotation
/// list leaves no key behind in the serialized object, rather than an
/// explicit default or an empty list.
pub proof fn lemma_query_round_trip(q: QueryModel)
    requires
        q.wf(),
    ensures
        query_of_jval(query_jval(q)) == Option::Some(q),
        q.weighting == Weighting::Bytes ==> obj_get(query_jval(q)->Obj_0, "weighting"@) is None,
        q.edge_annotations.len() == 0 ==> obj_get(
            query_jval(q)->Obj_0,
            "edge_annotations"@,
        ) is None,
{
    lemma_wire_names_distinct();
    let fs = query_jval(q)->Obj_0;
    let n1: int = if q.weighting == Weighting::Bytes {
        0
    } else {
        1
    };
    lemma_obj_get_at(fs, "from"@, 0);
    lemma_obj_get_at(fs, "until"@, 1);
    lemma_obj_get_at(fs, "walks"@, 2);
    crate::query_time::lemma_time_round_trip(q.from);
    crate::query_time::lemma_time_round_trip(q.until);
    lemma_walks_list_round_trip(q.walks);
    if q.weighting == Weighting::Bytes {
        lemma_obj_get_none(fs, "weighting"@);
    } else {
        lemma_obj_get_at(fs, "weighting"@, 3);
    }
    if q.edge_annotations.len() == 0 {
        lemma_obj_get_none(fs, "edge_annotations"@);
        assert(q.edge_annotations =~= Seq::<EdgeAnnotation>::empty());
    } else {
        lemma_obj_get_at(fs, "edge_annotations"@, 3 + n1);
        lemma_annotations_list_round_trip(q.edge_annotations);
    }
}

/// Whether two annotation lists are equal.
fn annotations_eq(a: &Vec<EdgeAnnotation>, b: &Vec<EdgeAnnotation>) -> (r: bool)
    ensures
        r == (a@ == b@),
{
    if a.len() != b.len() {
        proof {
            if a@ == b@ {
                assert(a@.len() == b@.len());
            }
        }
        return false;
    }
    let mut i: usize = 0;
    while i < a.len()
        invariant
            i <= a@.len(),
            a@.len() == b@.len(),
            forall|k: int| 0 <= k < i ==> a@[k] == b@[k],
        decreases a@.len() - i,
    {
        if !(a[i] == b[i]) {
            return false;
        }
        i += 1;
    }
    proof {
        assert(a@ =~= b@);
    }
    true
}

} // verus!
