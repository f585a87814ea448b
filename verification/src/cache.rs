//! The weighted routing cache: per source stream, the resolved flow list
//! and its derived weight range table, kept in a time-expiring cache and
//! rebuilt from the flow relation store on miss or expiry.
//!
//! Cached entries are `ResolvedFlows` values, whose type ties the table to
//! the flow list it was derived from: whatever the cache hands back is a
//! consistent pair, however long it sat there.

use vstd::prelude::*;
use std::time::Duration;
use lru_time_cache::LruCache;
use rand::Rng;
use crate::domain::{NatureError, Thing, ThingType};
use crate::flows::{OneStepFlow, ResolvedFlows, WeightRange, selected, table_spec};

verus! {

#[verifier::external_type_specification]
#[verifier::external_body]
#[verifier::reject_recursive_types(K)]
#[verifier::reject_recursive_types(V)]
pub struct ExLruCache<K, V>(LruCache<K, V>);

/// What the cache currently holds: for each stream identity, the flow
/// list and table of the live entry stored under it. Expiry and recency
/// bookkeeping only ever drop entries; the wrappers below say so, and
/// nothing about the clock is promised.
pub uninterp spec fn cache_entries(cache: LruCache<Thing, ResolvedFlows>) -> Map<
    (Seq<char>, int, ThingType),
    (Seq<OneStepFlow>, Seq<WeightRange>),
>;

/// Removing the same key keeps one contents map inside another.
proof fn lemma_submap_remove(
    m1: Map<(Seq<char>, int, ThingType), (Seq<OneStepFlow>, Seq<WeightRange>)>,
    m2: Map<(Seq<char>, int, ThingType), (Seq<OneStepFlow>, Seq<WeightRange>)>,
    k: (Seq<char>, int, ThingType),
)
    requires
        m1.submap_of(m2),
    ensures
        m1.remove(k).submap_of(m2.remove(k)),
{
    assert forall|x: (Seq<char>, int, ThingType)| #[trigger] m1.remove(k).dom().contains(x)
        implies m2.remove(k).dom().contains(x) && m1.remove(k)[x] == m2.remove(k)[x] by {
        assert(m1.dom().contains(x));
    }
}

/// Contents containment is transitive.
proof fn lemma_submap_trans(
    m1: Map<(Seq<char>, int, ThingType), (Seq<OneStepFlow>, Seq<WeightRange>)>,
    m2: Map<(Seq<char>, int, ThingType), (Seq<OneStepFlow>, Seq<WeightRange>)>,
    m3: Map<(Seq<char>, int, ThingType), (Seq<OneStepFlow>, Seq<WeightRange>)>,
)
    requires
        m1.submap_of(m2),
        m2.submap_of(m3),
    ensures
        m1.submap_of(m3),
{
    assert forall|x: (Seq<char>, int, ThingType)| #[trigger] m1.dom().contains(x)
        implies m3.dom().contains(x) && m1[x] == m3[x] by {
        assert(m2.dom().contains(x));
    }
}

/// An empty contents map.
pub open spec fn no_entries() -> Map<
    (Seq<char>, int, ThingType),
    (Seq<OneStepFlow>, Seq<WeightRange>),
> {
    Map::empty()
}

/// Relies on `lru_time_cache::LruCache::with_expiry_duration`: builds an
/// empty cache whose entries live for the given time span.
#[verifier::external_body]
fn cache_new(ttl_secs: u64) -> (r: LruCache<Thing, ResolvedFlows>)
    ensures
        cache_entries(r) == no_entries(),
{
    LruCache::with_expiry_duration(Duration::from_secs(ttl_secs))
}

/// Relies on `lru_time_cache::LruCache::get`: hands back a copy of the
/// entry stored under the key, or nothing when none is stored or the
/// stored one has expired. Whatever comes back was stored under this
/// key; the call removes expired entries and never adds or alters any.
#[verifier::external_body]
fn cache_get(cache: &mut LruCache<Thing, ResolvedFlows>, key: &Thing) -> (r: Option<
    ResolvedFlows,
>)
    ensures
        cache_entries(*final(cache)).submap_of(cache_entries(*old(cache))),
        r matches Some(v) ==> cache_entries(*old(cache)).contains_pair(
            key@,
            (v.flows_view(), v.table_view()),
        ),
{
    cache.get(key).cloned()
}

/// Relies on `lru_time_cache::LruCache::insert`: stores the entry under
/// the key, replacing any previous one; other entries are at most
/// dropped by expiry, never altered.
#[verifier::external_body]
fn cache_insert(cache: &mut LruCache<Thing, ResolvedFlows>, key: Thing, value: ResolvedFlows)
    ensures
        cache_entries(*final(cache)).contains_pair(
            key@,
            (value.flows_view(), value.table_view()),
        ),
        cache_entries(*final(cache)).remove(key@).submap_of(
            cache_entries(*old(cache)).remove(key@),
        ),
{
    let _ = cache.insert(key, value);
}

/// Relies on `rand::thread_rng` and `rand::Rng::gen`: one draw, uniform
/// over all `u32` values, from the thread-local generator. Nothing can be
/// promised of a random value.
#[verifier::external_body]
fn draw() -> u32 {
    rand::thread_rng().gen()
}

/// The flow relation store: the durable mapping from a source stream to
/// its configured outgoing flows. Read-only here; population on a cache
/// miss reads it whole for one source.
pub struct RelationStore {
    pub flows: Vec<OneStepFlow>,
    /// Whether the store can currently be reached.
    pub available: bool,
}

impl RelationStore {
    /// The configured outgoing flows of one source stream, in list order.
    pub open spec fn relations_spec(self, from: (Seq<char>, int, ThingType)) -> Seq<OneStepFlow> {
        self.flows@.filter(|f: OneStepFlow| f.from@ == from)
    }

    /// Fetches the outgoing flows of `from`; fails with a data-access
    /// error exactly when the store is unreachable.
    pub fn get_relations(&self, from: &Thing) -> (r: Result<Vec<OneStepFlow>, NatureError>)
        ensures
            match r {
                Ok(v) => self.available && v@ == self.relations_spec(from@),
                Err(e) => !self.available && e is DaoEnvironmentError,
            },
    {
        if !self.available {
            return Err(NatureError::DaoEnvironmentError("relation store unreachable".to_owned()));
        }
        let mut out: Vec<OneStepFlow> = Vec::new();
        let mut i: usize = 0;
        while i < self.flows.len()
            invariant
                i <= self.flows.len(),
                out@ == self.flows@.take(i as int).filter(
                    |f: OneStepFlow| f.from@ == from@,
                ),
            decreases self.flows.len() - i,
        {
            proof {
                crate::flows::lemma_filter_take_step(
                    self.flows@,
                    i as int,
                    |f: OneStepFlow| f.from@ == from@,
                );
            }
            if self.flows[i].from.same_as(from) {
                out.push(self.flows[i].clone());
            }
            i = i + 1;
        }
        proof {
            assert(self.flows@.take(self.flows@.len() as int) =~= self.flows@);
        }
        Ok(out)
    }
}

/// The routing cache contract: one call answers which flows should
/// receive an instance of the source stream right now, honoring the
/// probabilistic canary selection. The answer is always a one-draw
/// selection over a consistent pair, and that pair is either the entry
/// the cache held for the stream or the store's own relations.
pub trait OneStepFlowCacheTrait {
    /// The entries the cache currently associates with stream identities.
    spec fn entries(&self) -> Map<
        (Seq<char>, int, ThingType),
        (Seq<OneStepFlow>, Seq<WeightRange>),
    >;

    /// Resolves the flows to forward to, drawing once per call.
    fn get(&mut self, store: &RelationStore, from: &Thing) -> (r: Result<
        Vec<OneStepFlow>,
        NatureError,
    >)
        ensures
            store.available ==> r is Ok,
            match r {
                Ok(sel) => exists|fl: Seq<OneStepFlow>, d: u32|
                    sel@ == selected(fl, table_spec(fl), d) && (old(self).entries().contains_pair(
                        from@,
                        (fl, table_spec(fl)),
                    ) || fl == store.relations_spec(from@)),
                Err(e) => !store.available && e is DaoEnvironmentError,
            },
    ;
}

/// The time-expiring weighted routing cache.
pub struct OneStepFlowCacheImpl {
    cache: LruCache<Thing, ResolvedFlows>,
}

impl OneStepFlowCacheImpl {
    /// An empty cache whose entries expire after the given time span.
    pub fn new(ttl_secs: u64) -> (r: OneStepFlowCacheImpl)
        ensures
            r.held() == no_entries(),
    {
        OneStepFlowCacheImpl { cache: cache_new(ttl_secs) }
    }

    /// The entries this cache holds, by stream identity.
    pub closed spec fn held(self) -> Map<
        (Seq<char>, int, ThingType),
        (Seq<OneStepFlow>, Seq<WeightRange>),
    > {
        cache_entries(self.cache)
    }

    /// The resolved (flow list, weight table) pair for one source stream:
    /// answered from the cache when a live entry exists, otherwise
    /// fetched from the store, resolved, and cached under the stream.
    /// Either way the pair is consistent: the table is the one its flow
    /// list derives.
    pub fn get_balanced(&mut self, store: &RelationStore, from: &Thing) -> (r: Result<
        ResolvedFlows,
        NatureError,
    >)
        ensures
            store.available ==> r is Ok,
            // apart from the entry for `from`, nothing is ever added or
            // altered: other entries at most expire
            final(self).held().remove(from@).submap_of(old(self).held().remove(from@)),
            r matches Ok(rf) ==> rf.table_view() == table_spec(rf.flows_view()) && (old(
                self,
            ).held().contains_pair(from@, (rf.flows_view(), rf.table_view())) || (rf.flows_view()
                == store.relations_spec(from@) && final(self).held().contains_pair(
                from@,
                (rf.flows_view(), rf.table_view()),
            ))),
            r matches Err(e) ==> !store.available && e is DaoEnvironmentError,
    {
        let ghost before = cache_entries(old(self).cache);
        match cache_get(&mut self.cache, from) {
            Some(balances) => {
                let _ = balances.table();
                proof {
                    lemma_submap_remove(cache_entries(self.cache), before, from@);
                }
                Ok(balances)
            },
            None => {
                let ghost mid = cache_entries(self.cache);
                proof {
                    lemma_submap_remove(mid, before, from@);
                }
                let relations = match store.get_relations(from) {
                    Ok(v) => v,
                    Err(e) => {
                        return Err(e);
                    },
                };
                let resolved = ResolvedFlows::new(relations);
                let copy = resolved.clone();
                cache_insert(&mut self.cache, from.clone(), resolved);
                proof {
                    lemma_submap_trans(
                        cache_entries(self.cache).remove(from@),
                        mid.remove(from@),
                        before.remove(from@),
                    );
                }
                Ok(copy)
            },
        }
    }
}

impl OneStepFlowCacheTrait for OneStepFlowCacheImpl {
    closed spec fn entries(&self) -> Map<
        (Seq<char>, int, ThingType),
        (Seq<OneStepFlow>, Seq<WeightRange>),
    > {
        self.held()
    }

    /// One routing decision: resolve the pair, draw once, and keep every
    /// flow that is unconditional or whose interval contains the draw.
    fn get(&mut self, store: &RelationStore, from: &Thing) -> (r: Result<
        Vec<OneStepFlow>,
        NatureError,
    >) {
        let balances = match self.get_balanced(store, from) {
            Ok(b) => b,
            Err(e) => {
                return Err(e);
            },
        };
        let d = draw();
        let sel = crate::flows::weight_filter(balances.flows(), balances.table(), d);
        Ok(sel)
    }
}

} // verus!
