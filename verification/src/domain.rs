//! The data model shared by every component of the engine: streams
//! (`Thing`), snapshots (`Instance`), delivery envelopes (`Carrier`), and
//! the error taxonomy.

use vstd::prelude::*;

verus! {

/// How a stream's instances are classified: submitted by producers
/// (business) or synthesized by the engine itself (system).
#[derive(Clone, Copy, Debug, PartialEq, Eq, PartialOrd, Ord, Structural)]
pub enum ThingType {
    Business,
    System,
}

/// A named, versioned logical data stream. Identity is the full triple;
/// two streams with equal key, version and classification are the same
/// stream.
///
/// The derived comparison impls exist only so the routing cache may key on
/// streams; verified code compares streams field by field.
#[derive(Debug, PartialEq, Eq, PartialOrd, Ord)]
pub struct Thing {
    pub key: String,
    pub version: i32,
    pub thing_type: ThingType,
}

impl Thing {
    /// Mathematical identity of the stream.
    pub open spec fn view(self) -> (Seq<char>, int, ThingType) {
        (self.key@, self.version as int, self.thing_type)
    }

    /// Field-by-field equality, usable from verified code.
    pub fn same_as(&self, other: &Thing) -> (r: bool)
        ensures
            r == (self@ == other@),
    {
        let r = self.key == other.key && self.version == other.version
            && self.thing_type == other.thing_type;
        proof {
            if r {
                assert(self@ == other@);
            }
        }
        r
    }
}

/// The definition record of a stream, as the metadata store describes it.
/// `is_status` tells whether the stream is stateful: its instances carry a
/// status version that must advance on every write of the same identifier.
#[derive(Debug)]
pub struct ThingDefine {
    pub key: String,
    pub version: i32,
    pub is_status: bool,
}

impl ThingDefine {
    /// Whether instances of this stream carry status semantics.
    pub fn is_status(&self) -> (r: bool)
        ensures
            r == self.is_status,
    {
        self.is_status
    }
}

/// Trust origin of a submission: from an outside producer, or from the
/// engine itself. Validation is stricter for business submissions.
#[derive(Clone, Copy, Debug, PartialEq, Eq, Structural)]
pub enum Root {
    Business,
    System,
}

/// The error taxonomy of the engine.
///
/// - `VerifyError`, `LogicalError`, `ConverterProtocolError`: terminal for
///   the single operation, never retried.
/// - `DaoDuplicated`: a primary-key collision from the persistence layer;
///   idempotent success for stateless streams, retried with a corrected
///   status version for stateful ones.
/// - `DaoEnvironmentError`: infrastructure failure; aborts in-progress
///   batches immediately.
/// - `ThingNotDefined`: a stream without a definition record.
#[derive(Debug)]
pub enum NatureError {
    VerifyError(String),
    LogicalError(String),
    ThingNotDefined(String),
    ConverterProtocolError(String),
    DaoDuplicated,
    DaoEnvironmentError(String),
    DaoError(String),
}

impl NatureError {
    /// The text that this error contributes to a batch's error record.
    pub open spec fn message_spec(self) -> Seq<char> {
        match self {
            NatureError::VerifyError(s) => s@,
            NatureError::LogicalError(s) => s@,
            NatureError::ThingNotDefined(s) => s@,
            NatureError::ConverterProtocolError(s) => s@,
            NatureError::DaoDuplicated => "duplicated"@,
            NatureError::DaoEnvironmentError(s) => s@,
            NatureError::DaoError(s) => s@,
        }
    }

    /// Renders the error as text for error records and the error channel.
    pub fn message(&self) -> (r: String)
        ensures
            r@ == self.message_spec(),
    {
        match self {
            NatureError::VerifyError(s) => s.clone(),
            NatureError::LogicalError(s) => s.clone(),
            NatureError::ThingNotDefined(s) => s.clone(),
            NatureError::ConverterProtocolError(s) => s.clone(),
            NatureError::DaoDuplicated => "duplicated".to_owned(),
            NatureError::DaoEnvironmentError(s) => s.clone(),
            NatureError::DaoError(s) => s.clone(),
        }
    }
}

/// A snapshot's payload: everything but the identifier.
///
/// The context mapping is kept as an association list with unique keys;
/// the status tags as a plain list, read only by its owners.
#[derive(Debug)]
pub struct InstanceNoID {
    /// The stream this snapshot belongs to.
    pub thing: Thing,
    /// When the event happened, epoch millis.
    pub event_time: i64,
    /// When the snapshot is planned to flow, epoch millis.
    pub execute_time: i64,
    /// When the snapshot was created, epoch millis.
    pub create_time: i64,
    /// Opaque content payload.
    pub content: String,
    /// Context mapping: name to an opaque instance-reference payload.
    pub context: Vec<(String, String)>,
    /// Status tags.
    pub status: Vec<String>,
    /// Counter advanced on every retried write of a stateful stream.
    pub status_version: i32,
}

/// Whether an association list binds each key at most once.
pub open spec fn keys_unique(pairs: Seq<(String, String)>) -> bool {
    forall|i: int, j: int|
        0 <= i < j < pairs.len() ==> pairs[i].0@ != pairs[j].0@
}

impl InstanceNoID {
    /// Structural invariant: the context mapping has unique keys.
    pub open spec fn wf(self) -> bool {
        keys_unique(self.context@)
    }

    /// Mathematical image of the payload: collections become sequences.
    pub open spec fn view(self) -> (
        Thing,
        int,
        int,
        int,
        String,
        Seq<(String, String)>,
        Seq<String>,
        int,
    ) {
        (
            self.thing,
            self.event_time as int,
            self.execute_time as int,
            self.create_time as int,
            self.content,
            self.context@,
            self.status@,
            self.status_version as int,
        )
    }
}

/// A snapshot for a particular `Thing`.
#[derive(Debug)]
pub struct Instance {
    /// A globally unique 128-bit value distinguishing this snapshot.
    pub id: u128,
    pub data: InstanceNoID,
}

impl Instance {
    pub open spec fn wf(self) -> bool {
        self.data.wf()
    }

    /// Mathematical image of the snapshot.
    pub open spec fn view(self) -> (
        int,
        (Thing, int, int, int, String, Seq<(String, String)>, Seq<String>, int),
    ) {
        (self.id as int, self.data@)
    }
}

/// An ordered group of snapshots submitted together, each delivered
/// independently through the normal single-submission path.
#[derive(Debug)]
pub struct ParallelBatchInstance(pub Vec<Instance>);

/// An ordered group of snapshots submitted together and processed in
/// order against one stream.
#[derive(Debug)]
pub struct SerialBatchInstance {
    /// The context key the completion record is filed under.
    pub context_for_finish: String,
    /// Whether item-local errors are tolerated.
    pub ignore_error: bool,
    pub instance: Vec<Instance>,
}

/// What a delivery envelope carries on the store-and-route stage.
#[derive(Debug)]
pub struct StoreInfo {
    pub instance: Instance,
}

/// A trackable delivery envelope owning exactly one payload. The identifier
/// is shared across every envelope derived for the same logical operation,
/// and correlates retries and remote calls.
#[derive(Debug)]
pub struct Carrier<T> {
    pub content: T,
    pub id: u128,
    pub create_time: i64,
}

/// The wire protocols a conversion executor may speak.
#[derive(Clone, Copy, Debug, PartialEq, Eq, Structural)]
pub enum Protocol {
    LocalRust,
    Http,
    Rpc,
}

/// How to reach one converter: the protocol to speak and the target.
#[derive(Debug)]
pub struct Executor {
    pub protocol: Protocol,
    pub url: String,
}

/// Executor configuration bound to one flow, resolved at dispatch time:
/// the target stream the conversion produces for, how to reach the
/// converter, and the configuration text handed to it.
#[derive(Debug)]
pub struct Mission {
    pub to: Thing,
    pub executor: Executor,
    pub settings: String,
}

/// What a converter is handed: the snapshot to convert, its configuration
/// text, and the prior status snapshot if any.
#[derive(Debug)]
pub struct ConverterParameter {
    pub from: Instance,
    pub cfg: String,
    pub last_status: Option<Instance>,
}

/// The parameter record built for one call-out to a converter. The carrier
/// identifier lets the remote side deduplicate repeated deliveries.
#[derive(Debug)]
pub struct CallOutParameter {
    pub from: Instance,
    pub last_status: Option<Instance>,
    pub carrier_id: u128,
}

/// The normalized result of invoking a conversion.
#[derive(Debug)]
pub enum ConverterReturned {
    /// The converter produced these snapshots, in order.
    Instances(Vec<Instance>),
    /// The conversion failed for a reason that retrying cannot mend.
    LogicalError(String),
    /// The conversion failed for an infrastructure reason.
    EnvError(String),
}

impl Clone for Thing {
    fn clone(&self) -> (r: Thing)
        ensures
            r == *self,
    {
        Thing { key: self.key.clone(), version: self.version, thing_type: self.thing_type }
    }
}

impl Clone for ThingDefine {
    fn clone(&self) -> (r: ThingDefine)
        ensures
            r == *self,
    {
        ThingDefine { key: self.key.clone(), version: self.version, is_status: self.is_status }
    }
}

impl Clone for NatureError {
    fn clone(&self) -> (r: NatureError)
        ensures
            r == *self,
    {
        match self {
            NatureError::VerifyError(s) => NatureError::VerifyError(s.clone()),
            NatureError::LogicalError(s) => NatureError::LogicalError(s.clone()),
            NatureError::ThingNotDefined(s) => NatureError::ThingNotDefined(s.clone()),
            NatureError::ConverterProtocolError(s) => NatureError::ConverterProtocolError(
                s.clone(),
            ),
            NatureError::DaoDuplicated => NatureError::DaoDuplicated,
            NatureError::DaoEnvironmentError(s) => NatureError::DaoEnvironmentError(s.clone()),
            NatureError::DaoError(s) => NatureError::DaoError(s.clone()),
        }
    }
}

/// Copies an association list pair by pair.
pub fn clone_string_pairs(v: &Vec<(String, String)>) -> (r: Vec<(String, String)>)
    ensures
        r@ == v@,
{
    let mut r: Vec<(String, String)> = Vec::new();
    let mut i: usize = 0;
    while i < v.len()
        invariant
            i <= v.len(),
            r@ == v@.take(i as int),
        decreases v.len() - i,
    {
        r.push((v[i].0.clone(), v[i].1.clone()));
        proof {
            assert(r@ =~= v@.take(i + 1 as int));
        }
        i = i + 1;
    }
    proof {
        assert(v@.take(v@.len() as int) =~= v@);
    }
    r
}

/// Copies a list of strings element by element.
pub fn clone_strings(v: &Vec<String>) -> (r: Vec<String>)
    ensures
        r@ == v@,
{
    let mut r: Vec<String> = Vec::new();
    let mut i: usize = 0;
    while i < v.len()
        invariant
            i <= v.len(),
            r@ == v@.take(i as int),
        decreases v.len() - i,
    {
        r.push(v[i].clone());
        proof {
            assert(r@ =~= v@.take(i + 1 as int));
        }
        i = i + 1;
    }
    proof {
        assert(v@.take(v@.len() as int) =~= v@);
    }
    r
}

impl Clone for InstanceNoID {
    fn clone(&self) -> (r: InstanceNoID)
        ensures
            r@ == self@,
    {
        let r = InstanceNoID {
            thing: self.thing.clone(),
            event_time: self.event_time,
            execute_time: self.execute_time,
            create_time: self.create_time,
            content: self.content.clone(),
            context: clone_string_pairs(&self.context),
            status: clone_strings(&self.status),
            status_version: self.status_version,
        };
        r
    }
}

impl Clone for Instance {
    fn clone(&self) -> (r: Instance)
        ensures
            r@ == self@,
    {
        Instance { id: self.id, data: self.data.clone() }
    }
}

impl Clone for StoreInfo {
    fn clone(&self) -> (r: StoreInfo)
        ensures
            r.instance@ == self.instance@,
    {
        StoreInfo { instance: self.instance.clone() }
    }
}

impl Clone for Carrier<StoreInfo> {
    fn clone(&self) -> (r: Carrier<StoreInfo>)
        ensures
            r.content.instance@ == self.content.instance@,
            r.id == self.id,
            r.create_time == self.create_time,
    {
        Carrier { content: self.content.clone(), id: self.id, create_time: self.create_time }
    }
}

impl Clone for Executor {
    fn clone(&self) -> (r: Executor)
        ensures
            r == *self,
    {
        Executor { protocol: self.protocol, url: self.url.clone() }
    }
}

impl Clone for Mission {
    fn clone(&self) -> (r: Mission)
        ensures
            r == *self,
    {
        Mission {
            to: self.to.clone(),
            executor: self.executor.clone(),
            settings: self.settings.clone(),
        }
    }
}

} // verus!
