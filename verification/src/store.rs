//! The carrier and delivery lifecycle: validate a submitted snapshot,
//! persist it, and on success hand its carrier to the routing channel.
//!
//! Duplicate writes are resolved by the stream's statefulness: a stateless
//! stream treats the duplicate as already delivered (idempotent success);
//! a stateful stream retries once with a corrected status version, which
//! is strictly above every persisted version of that identifier, so the
//! retry converges. Any other failure is terminal for the carrier.

use vstd::prelude::*;
use crate::domain::{
    Carrier, Instance, InstanceNoID, NatureError, Root, StoreInfo, Thing, ThingDefine,
};

verus! {

/// Relies on `uuid::Uuid::new_v4` (via `as_u128`): a fresh random
/// identifier. Nothing can be promised of a random value.
#[verifier::external_body]
pub(crate) fn gen_id() -> u128 {
    uuid::Uuid::new_v4().as_u128()
}

/// Relies on `chrono::Local::now` and `timestamp_millis`: the clock
/// reading in epoch millis. Depends on the time of the call, so nothing
/// more is promised.
#[verifier::external_body]
pub(crate) fn now_millis() -> i64 {
    chrono::Local::now().timestamp_millis()
}

/// Whether a row with this identifier and status version is persisted.
pub open spec fn ver_present(rows: Seq<Instance>, id: u128, ver: int) -> bool {
    exists|k: int|
        0 <= k < rows.len() && rows[k].id == id && rows[k].data.status_version == ver
}

/// Whether any row carries this identifier.
pub open spec fn has_id(rows: Seq<Instance>, id: u128) -> bool {
    exists|k: int| 0 <= k < rows.len() && rows[k].id == id
}

/// The persistence layer for snapshots, keyed by (identifier, status
/// version). An insert either appends or reports the collision.
pub struct InstanceTable {
    pub rows: Vec<Instance>,
}

impl InstanceTable {
    /// An empty table.
    pub fn new() -> (r: InstanceTable)
        ensures
            r.rows@ == Seq::<Instance>::empty(),
    {
        InstanceTable { rows: Vec::new() }
    }

    /// Persists one snapshot; fails with the duplicate error exactly when
    /// a row with the same identifier and status version already exists.
    pub fn insert(&mut self, row: Instance) -> (r: Result<(), NatureError>)
        ensures
            match r {
                Ok(_) => !ver_present(
                    old(self).rows@,
                    row.id,
                    row.data.status_version as int,
                ) && final(self).rows@ == old(self).rows@.push(row),
                Err(e) => e is DaoDuplicated && ver_present(
                    old(self).rows@,
                    row.id,
                    row.data.status_version as int,
                ) && *final(self) == *old(self),
            },
    {
        let mut i: usize = 0;
        while i < self.rows.len()
            invariant
                i <= self.rows.len(),
                forall|k: int|
                    0 <= k < i ==> !(self.rows@[k].id == row.id
                        && self.rows@[k].data.status_version == row.data.status_version),
            decreases self.rows.len() - i,
        {
            if self.rows[i].id == row.id
                && self.rows[i].data.status_version == row.data.status_version {
                return Err(NatureError::DaoDuplicated);
            }
            i = i + 1;
        }
        self.rows.push(row);
        Ok(())
    }

    /// The largest persisted status version of one identifier, if any row
    /// carries it.
    pub fn max_version(&self, id: u128) -> (r: Option<i32>)
        ensures
            match r {
                Some(v) => ver_present(self.rows@, id, v as int) && forall|w: int|
                    ver_present(self.rows@, id, w) ==> w <= v,
                None => !has_id(self.rows@, id),
            },
    {
        let mut best: Option<i32> = None;
        let mut i: usize = 0;
        while i < self.rows.len()
            invariant
                i <= self.rows.len(),
                match best {
                    Some(v) => ver_present(self.rows@, id, v as int) && forall|k: int|
                        0 <= k < i && self.rows@[k].id == id
                            ==> self.rows@[k].data.status_version <= v,
                    None => forall|k: int| 0 <= k < i ==> self.rows@[k].id != id,
                },
            decreases self.rows.len() - i,
        {
            if self.rows[i].id == id {
                let v = self.rows[i].data.status_version;
                best = match best {
                    Some(b) => if v > b {
                        Some(v)
                    } else {
                        Some(b)
                    },
                    None => Some(v),
                };
            }
            i = i + 1;
        }
        proof {
            if best is Some {
                assert forall|w: int| ver_present(self.rows@, id, w) implies w
                    <= best->0 as int by {
                    let k = choose|k: int|
                        0 <= k < self.rows@.len() && self.rows@[k].id == id
                            && self.rows@[k].data.status_version == w;
                    assert(self.rows@[k].data.status_version <= best->0);
                }
            } else {
                assert(!has_id(self.rows@, id));
            }
        }
        best
    }
}

/// The first definition record matching a stream's key and version.
pub open spec fn def_of(defs: Seq<ThingDefine>, t: Thing) -> Option<ThingDefine>
    decreases defs.len(),
{
    if defs.len() == 0 {
        None
    } else if defs[0].key@ == t.key@ && defs[0].version == t.version {
        Some(defs[0])
    } else {
        def_of(defs.drop_first(), t)
    }
}

/// The stream definition lookup: which streams exist and whether each is
/// stateful.
pub struct ThingDefines {
    pub defines: Vec<ThingDefine>,
}

/// A first-match definition lookup lands on index `j` when nothing
/// earlier matches.
proof fn lemma_def_of_at(defs: Seq<ThingDefine>, t: Thing, j: int)
    requires
        0 <= j < defs.len(),
        forall|k: int|
            0 <= k < j ==> !(defs[k].key@ == t.key@ && defs[k].version == t.version),
        defs[j].key@ == t.key@ && defs[j].version == t.version,
    ensures
        def_of(defs, t) == Some(defs[j]),
    decreases j,
{
    if j > 0 {
        lemma_def_of_at(defs.drop_first(), t, j - 1);
    }
}

/// A definition lookup finds nothing when no record matches.
proof fn lemma_def_of_none(defs: Seq<ThingDefine>, t: Thing)
    requires
        forall|k: int|
            0 <= k < defs.len() ==> !(defs[k].key@ == t.key@ && defs[k].version == t.version),
    ensures
        def_of(defs, t) is None,
    decreases defs.len(),
{
    if defs.len() > 0 {
        lemma_def_of_none(defs.drop_first(), t);
    }
}

impl ThingDefines {
    /// The definition record of one stream; fails exactly when the stream
    /// has none.
    pub fn get(&self, thing: &Thing) -> (r: Result<ThingDefine, NatureError>)
        ensures
            match r {
                Ok(d) => def_of(self.defines@, *thing) == Some(d),
                Err(e) => def_of(self.defines@, *thing) is None && e is ThingNotDefined,
            },
    {
        let mut i: usize = 0;
        while i < self.defines.len()
            invariant
                i <= self.defines.len(),
                forall|k: int|
                    0 <= k < i ==> !(self.defines@[k].key@ == thing.key@
                        && self.defines@[k].version == thing.version),
            decreases self.defines.len() - i,
        {
            if self.defines[i].key == thing.key && self.defines[i].version == thing.version {
                proof {
                    lemma_def_of_at(self.defines@, *thing, i as int);
                }
                return Ok(self.defines[i].clone());
            }
            i = i + 1;
        }
        proof {
            lemma_def_of_none(self.defines@, *thing);
        }
        Err(NatureError::ThingNotDefined(thing.key.clone()))
    }
}

/// The channels a carrier can end on: the routing channel on success, the
/// error channel on terminal failure, and the finished list for
/// idempotent completion.
pub struct Delivery {
    /// Carriers persisted and awaiting routing, in order.
    pub route: Vec<Carrier<StoreInfo>>,
    /// Terminally failed carriers with the error that ended them.
    pub errors: Vec<(NatureError, Carrier<StoreInfo>)>,
    /// Identifiers of carriers finished without further routing.
    pub finished: Vec<u128>,
}

impl Delivery {
    /// Empty channels.
    pub fn new() -> (r: Delivery)
        ensures
            r.route@ == Seq::<Carrier<StoreInfo>>::empty(),
            r.errors@ == Seq::<(NatureError, Carrier<StoreInfo>)>::empty(),
            r.finished@ == Seq::<u128>::empty(),
    {
        Delivery { route: Vec::new(), errors: Vec::new(), finished: Vec::new() }
    }

    /// Wraps a payload in a fresh envelope with a new delivery identifier
    /// and the creation time.
    pub fn create_carrier(task: StoreInfo) -> (r: Carrier<StoreInfo>)
        ensures
            r.content == task,
    {
        let id = gen_id();
        let create_time = now_millis();
        Carrier { content: task, id, create_time }
    }
}

/// Whether a submission passes validation for its trust root: a business
/// submission must name a stream with a non-empty key; the engine's own
/// submissions always pass.
pub open spec fn valid_submission(inst: Instance, root: Root) -> bool {
    !(root is Business && inst.data.thing.key@.len() == 0)
}

impl Instance {
    /// Validates the snapshot for the given trust root and corrects its
    /// identity: a zero identifier is replaced by a fresh random one. The
    /// payload is never touched. Returns the (possibly corrected)
    /// identifier.
    pub fn validate(&mut self, root: Root) -> (r: Result<u128, NatureError>)
        ensures
            final(self).data == old(self).data,
            match r {
                Ok(id) => valid_submission(*old(self), root) && final(self).id == id
                    && (old(self).id != 0 ==> id == old(self).id),
                Err(e) => e is VerifyError && !valid_submission(*old(self), root)
                    && *final(self) == *old(self),
            },
    {
        if matches!(root, Root::Business) && self.data.thing.key.as_str().is_empty() {
            return Err(NatureError::VerifyError("instance key is empty".to_owned()));
        }
        if self.id == 0 {
            self.id = gen_id();
        }
        Ok(self.id)
    }
}

/// The store-and-route stage of the engine: the persistence table, the
/// stream definitions, and the delivery channels, as one state.
pub struct Store {
    pub table: InstanceTable,
    pub defines: ThingDefines,
    pub delivery: Delivery,
}

impl Store {
    /// A fresh engine around the given stream definitions.
    pub fn new(defines: ThingDefines) -> (r: Store)
        ensures
            r.table.rows@ == Seq::<Instance>::empty(),
            r.defines == defines,
            r.delivery.route@ == Seq::<Carrier<StoreInfo>>::empty(),
            r.delivery.errors@ == Seq::<(NatureError, Carrier<StoreInfo>)>::empty(),
            r.delivery.finished@ == Seq::<u128>::empty(),
    {
        Store { table: InstanceTable::new(), defines, delivery: Delivery::new() }
    }

    /// Handles a duplicate write: a stateful stream gets one retry with a
    /// status version strictly above every persisted one; a stateless
    /// stream is finished idempotently; an undefined stream is an error.
    fn handle_duplicated(&mut self, carrier: Carrier<StoreInfo>, instance: Instance) -> (r:
        Result<(), NatureError>)
        requires
            has_id(old(self).table.rows@, instance.id),
        ensures
            final(self).defines == old(self).defines,
            final(self).delivery.errors == old(self).delivery.errors,
            match r {
                Ok(_) => {
                    let d = def_of(old(self).defines.defines@, instance.data.thing);
                    &&& d is Some
                    &&& if d->0.is_status {
                        &&& final(self).table.rows@.len() == old(self).table.rows@.len() + 1
                        &&& final(self).table.rows@.take(old(self).table.rows@.len() as int)
                            == old(self).table.rows@
                        &&& final(self).table.rows@.last().id == instance.id
                        &&& (forall|w: int|
                            ver_present(old(self).table.rows@, instance.id, w)
                                ==> w < final(self).table.rows@.last().data.status_version)
                        &&& same_but_version(
                            final(self).table.rows@.last().data,
                            instance.data,
                        )
                        &&& final(self).delivery.route@ == old(self).delivery.route@.push(
                            carrier,
                        )
                        &&& final(self).delivery.finished == old(self).delivery.finished
                    } else {
                        &&& final(self).table == old(self).table
                        &&& final(self).delivery.route == old(self).delivery.route
                        &&& final(self).delivery.finished@ == old(self).delivery.finished@.push(carrier.id)
                    }
                },
                Err(e) => {
                    &&& *final(self) == *old(self)
                    &&& match e {
                        NatureError::ThingNotDefined(_) => def_of(
                            old(self).defines.defines@,
                            instance.data.thing,
                        ) is None,
                        NatureError::LogicalError(_) => (def_of(
                            old(self).defines.defines@,
                            instance.data.thing,
                        ) matches Some(d) && d.is_status) && ver_present(
                            old(self).table.rows@,
                            instance.id,
                            i32::MAX as int,
                        ),
                        _ => false,
                    }
                },
            },
    {
        let define = match self.defines.get(&instance.data.thing) {
            Ok(d) => d,
            Err(e) => {
                return Err(e);
            },
        };
        if define.is_status() {
            // the retry path: correct the status version and persist again
            let top = match self.table.max_version(instance.id) {
                Some(v) => v,
                None => {
                    // a duplicate means some version of this identifier is persisted
                    proof {
                        assert(false);
                    }
                    return Err(NatureError::LogicalError("no persisted version".to_owned()));
                },
            };
            if top == i32::MAX {
                return Err(
                    NatureError::LogicalError("status version space exhausted".to_owned()),
                );
            }
            let mut retry = instance;
            retry.data.status_version = top + 1;
            proof {
                if ver_present(self.table.rows@, retry.id, retry.data.status_version as int) {
                    assert(false);
                }
            }
            match self.table.insert(retry) {
                Ok(_) => {
                    self.delivery.route.push(carrier);
                    Ok(())
                },
                Err(e) => {
                    // the corrected version is above every persisted one
                    proof {
                        assert(false);
                    }
                    Err(e)
                },
            }
        } else {
            // a stateless stream will not be written twice: finish here
            self.delivery.finished.push(carrier.id);
            Ok(())
        }
    }
}

/// The persistence and routing effects of one accepted store: what a
/// successful `do_store` of `carrier` under the validated identifier `id`
/// does to the engine state. Exactly one of three things happens: a fresh
/// row is appended and the carrier routed; a stateful duplicate is
/// retried once, with a status version above every persisted one, and the
/// carrier routed; a stateless duplicate rewrites nothing and the carrier
/// is finished.
pub open spec fn stored_effects(
    pre: Store,
    post: Store,
    carrier: Carrier<StoreInfo>,
    id: u128,
) -> bool {
    let inst = carrier.content.instance;
    let rows0 = pre.table.rows@;
    if !ver_present(rows0, id, inst.data.status_version as int) {
        &&& post.table.rows@.len() == rows0.len() + 1
        &&& post.table.rows@.take(rows0.len() as int) == rows0
        &&& post.table.rows@.last().id == id
        &&& post.table.rows@.last().data@ == inst.data@
        &&& post.delivery.route@ == pre.delivery.route@.push(carrier)
        &&& post.delivery.finished == pre.delivery.finished
    } else {
        let d = def_of(pre.defines.defines@, inst.data.thing);
        &&& d is Some
        &&& if d->0.is_status {
            &&& post.table.rows@.len() == rows0.len() + 1
            &&& post.table.rows@.take(rows0.len() as int) == rows0
            &&& post.table.rows@.last().id == id
            &&& (forall|w: int|
                ver_present(rows0, id, w) ==> w < post.table.rows@.last().data.status_version)
            &&& same_but_version(post.table.rows@.last().data, inst.data)
            &&& post.delivery.route@ == pre.delivery.route@.push(carrier)
            &&& post.delivery.finished == pre.delivery.finished
        } else {
            &&& post.table == pre.table
            &&& post.delivery.route == pre.delivery.route
            &&& post.delivery.finished@ == pre.delivery.finished@.push(carrier.id)
        }
    }
}

impl Store {
    /// Validates and persists the carried snapshot, then hands the carrier
    /// to the routing channel.
    ///
    /// A duplicate write succeeds without rewriting for a stateless
    /// stream (the carrier is finished instead of routed), and is retried
    /// once with a status version above every persisted one for a
    /// stateful stream. A failed validation, an undefined stream on the
    /// duplicate path, and an exhausted version space are terminal; the
    /// engine state is then unchanged and the error says which case held.
    pub fn do_store(&mut self, carrier: Carrier<StoreInfo>, root: Root) -> (r: Result<
        u128,
        NatureError,
    >)
        ensures
            final(self).defines == old(self).defines,
            ({
                let inst = carrier.content.instance;
                let rows0 = old(self).table.rows@;
                match r {
                    Ok(id) => {
                        &&& valid_submission(inst, root)
                        &&& (inst.id != 0 ==> id == inst.id)
                        &&& final(self).delivery.errors == old(self).delivery.errors
                        &&& stored_effects(*old(self), *final(self), carrier, id)
                    },
                    Err(e) => {
                        &&& *final(self) == *old(self)
                        &&& match e {
                            NatureError::VerifyError(_) => !valid_submission(inst, root),
                            NatureError::ThingNotDefined(_) => valid_submission(inst, root)
                                && def_of(
                                old(self).defines.defines@,
                                inst.data.thing,
                            ) is None,
                            NatureError::LogicalError(_) => valid_submission(inst, root)
                                && (def_of(
                                old(self).defines.defines@,
                                inst.data.thing,
                            ) matches Some(d) && d.is_status) && (exists|vid: u128|
                                (inst.id != 0 ==> vid == inst.id) && ver_present(
                                    rows0,
                                    vid,
                                    i32::MAX as int,
                                )),
                            _ => false,
                        }
                    },
                }
            }),
            // success is owed: a fresh identifier,
            ({
                let inst = carrier.content.instance;
                let rows0 = old(self).table.rows@;
                valid_submission(inst, root) && inst.id != 0 && !ver_present(
                    rows0,
                    inst.id,
                    inst.data.status_version as int,
                ) ==> r is Ok
            }),
            // a duplicate on a defined stateless stream,
            ({
                let inst = carrier.content.instance;
                let rows0 = old(self).table.rows@;
                valid_submission(inst, root) && inst.id != 0 && ver_present(
                    rows0,
                    inst.id,
                    inst.data.status_version as int,
                ) && (def_of(old(self).defines.defines@, inst.data.thing) matches Some(d)
                    && !d.is_status) ==> r is Ok
            }),
            // or a duplicate on a defined stateful stream with room left.
            ({
                let inst = carrier.content.instance;
                let rows0 = old(self).table.rows@;
                valid_submission(inst, root) && inst.id != 0 && ver_present(
                    rows0,
                    inst.id,
                    inst.data.status_version as int,
                ) && (def_of(old(self).defines.defines@, inst.data.thing) matches Some(d)
                    && d.is_status) && (forall|w: int|
                    ver_present(rows0, inst.id, w) ==> w < i32::MAX) ==> r is Ok
            }),
    {
        let mut instance = carrier.content.instance.clone();
        let id = match instance.validate(root) {
            Ok(u) => u,
            Err(e) => {
                return Err(e);
            },
        };
        match self.table.insert(instance.clone()) {
            Ok(_) => {
                self.delivery.route.push(carrier);
                proof {
                    assert(self.table.rows@.take(old(self).table.rows@.len() as int) =~= old(self).table.rows@);
                }
                Ok(id)
            },
            Err(NatureError::DaoDuplicated) => {
                proof {
                    assert(has_id(self.table.rows@, instance.id));
                }
                match self.handle_duplicated(carrier, instance) {
                    Ok(_) => Ok(id),
                    Err(e) => Err(e),
                }
            },
            Err(e) => {
                // the table reports no error besides the duplicate
                proof {
                    assert(false);
                }
                Err(e)
            },
        }
    }

    /// Submits one snapshot: wraps it in a fresh carrier, persists it,
    /// and on success enqueues it for routing. Returns the snapshot's
    /// (possibly corrected) identifier.
    pub fn submit_single(&mut self, instance: Instance) -> (r: Result<u128, NatureError>)
        ensures
            final(self).defines == old(self).defines,
            final(self).delivery.errors == old(self).delivery.errors,
            final(self).table.rows@.take(old(self).table.rows@.len() as int) == old(self).table.rows@,
            final(self).table.rows@.len() <= old(self).table.rows@.len() + 1,
            final(self).delivery.route@.len() <= old(self).delivery.route@.len() + 1,
            r matches Ok(id) ==> valid_submission(instance, Root::Business) && (instance.id != 0
                ==> id == instance.id) && (exists|c: Carrier<StoreInfo>|
                c.content.instance == instance && #[trigger] stored_effects(
                    *old(self),
                    *final(self),
                    c,
                    id,
                )),
            r matches Err(e) ==> *final(self) == *old(self) && !(e is DaoDuplicated) && !(
            e is DaoEnvironmentError),
            // success is owed on a fresh identifier, which is then
            // persisted and its carrier routed,
            valid_submission(instance, Root::Business) && instance.id != 0 && !ver_present(
                old(self).table.rows@,
                instance.id,
                instance.data.status_version as int,
            ) ==> r == Ok::<u128, NatureError>(instance.id) && final(self).table.rows@.len()
                == old(self).table.rows@.len() + 1 && final(self).table.rows@.last().id
                == instance.id && final(self).table.rows@.last().data@ == instance.data@
                && final(self).delivery.route@.len() == old(self).delivery.route@.len() + 1
                && final(self).delivery.route@.last().content.instance == instance && final(self).delivery.finished == old(self).delivery.finished,
            // and on a duplicate of a defined stateless stream, which
            // rewrites nothing and finishes the carrier.
            valid_submission(instance, Root::Business) && instance.id != 0 && ver_present(
                old(self).table.rows@,
                instance.id,
                instance.data.status_version as int,
            ) && (def_of(old(self).defines.defines@, instance.data.thing) matches Some(d)
                && !d.is_status) ==> r == Ok::<u128, NatureError>(instance.id) && final(self).table == old(self).table && final(self).delivery.route == old(self).delivery.route && final(self).delivery.finished@.len() == old(self).delivery.finished@.len() + 1,
    {
        let carrier = Delivery::create_carrier(StoreInfo { instance });
        let r = self.do_store(carrier, Root::Business);
        proof {
            assert(self.table.rows@.take(old(self).table.rows@.len() as int) =~= old(self).table.rows@);
        }
        r
    }

    /// Entry point for carriers arriving from the routing channel: stores
    /// the carried snapshot, and on any error moves the carrier to the
    /// error channel instead of re-raising. Exactly one of two things
    /// happens: the carrier is stored with all of `do_store`'s effects and
    /// the error channel untouched, or it lands on the error channel with
    /// the failure that ended it and everything else untouched.
    pub fn store_for_receive(&mut self, carrier: Carrier<StoreInfo>)
        ensures
            final(self).defines == old(self).defines,
            ({
                let inst = carrier.content.instance;
                ||| {
                    &&& final(self).delivery.errors == old(self).delivery.errors
                    &&& valid_submission(inst, Root::Business)
                    &&& (exists|id: u128|
                        (inst.id != 0 ==> id == inst.id) && #[trigger] stored_effects(
                            *old(self),
                            *final(self),
                            carrier,
                            id,
                        ))
                }
                ||| {
                    &&& final(self).table == old(self).table
                    &&& final(self).delivery.route == old(self).delivery.route
                    &&& final(self).delivery.finished == old(self).delivery.finished
                    &&& final(self).delivery.errors@.len() == old(self).delivery.errors@.len() + 1
                    &&& final(self).delivery.errors@.take(old(self).delivery.errors@.len() as int)
                        == old(self).delivery.errors@
                    &&& final(self).delivery.errors@.last().1.id == carrier.id
                    &&& final(self).delivery.errors@.last().1.content.instance@ == inst@
                    &&& match final(self).delivery.errors@.last().0 {
                        NatureError::VerifyError(_) => !valid_submission(inst, Root::Business),
                        NatureError::ThingNotDefined(_) => valid_submission(inst, Root::Business)
                            && def_of(old(self).defines.defines@, inst.data.thing) is None,
                        NatureError::LogicalError(_) => valid_submission(inst, Root::Business)
                            && (def_of(old(self).defines.defines@, inst.data.thing) matches Some(
                            d,
                        ) && d.is_status),
                        _ => false,
                    }
                }
            }),
            // storing is owed on a fresh identifier: nothing is recorded
            // on the error channel then
            valid_submission(carrier.content.instance, Root::Business)
                && carrier.content.instance.id != 0 && !ver_present(
                old(self).table.rows@,
                carrier.content.instance.id,
                carrier.content.instance.data.status_version as int,
            ) ==> final(self).delivery.errors == old(self).delivery.errors,
            // and a failed validation surely lands there
            !valid_submission(carrier.content.instance, Root::Business) ==> final(self).delivery.errors@.len() == old(self).delivery.errors@.len() + 1,
    {
        let copy = carrier.clone();
        match self.do_store(carrier, Root::Business) {
            Ok(_) => {},
            Err(e) => {
                self.delivery.errors.push((e, copy));
                proof {
                    assert(self.delivery.errors@.take(old(self).delivery.errors@.len() as int)
                        =~= old(self).delivery.errors@);
                }
            },
        }
    }
}

/// Whether two payloads agree on everything but the status version.
pub open spec fn same_but_version(a: InstanceNoID, b: InstanceNoID) -> bool {
    &&& a.thing == b.thing
    &&& a.event_time == b.event_time
    &&& a.execute_time == b.execute_time
    &&& a.create_time == b.create_time
    &&& a.content == b.content
    &&& a.context@ == b.context@
    &&& a.status@ == b.status@
}

} // verus!
