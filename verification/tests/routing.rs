use nature::cache::{OneStepFlowCacheImpl, OneStepFlowCacheTrait, RelationStore};
use nature::domain::{Executor, Protocol, Thing, ThingType};
use nature::flows::{get_label_groups, weight_calculate, weight_filter, OneStepFlow, ResolvedFlows,
    Weight};

fn thing(key: &str) -> Thing {
    Thing { key: key.to_string(), version: 1, thing_type: ThingType::Business }
}

fn flow(from: &str, to: &str, label: &str, proportion: u8) -> OneStepFlow {
    OneStepFlow {
        from: thing(from),
        to: thing(to),
        executor: Executor { protocol: Protocol::LocalRust, url: "timer".to_string() },
        weight: Weight { proportion, label: label.to_string() },
    }
}

#[test]
fn unlabelled_flows_always_pass() {
    // all labels empty: the table is empty and every flow is forwarded,
    // whatever the draw
    let flows = vec![flow("/B/a", "/B/b", "", 1), flow("/B/a", "/B/c", "", 200)];
    let resolved = ResolvedFlows::new(flows);
    assert_eq!(resolved.table().len(), 0);
    let store = RelationStore {
        flows: vec![flow("/B/a", "/B/b", "", 1), flow("/B/a", "/B/c", "", 200)],
        available: true,
    };
    let mut cache = OneStepFlowCacheImpl::new(3600);
    for _ in 0..100 {
        let sel = cache.get(&store, &thing("/B/a")).unwrap();
        assert_eq!(sel.len(), 2);
        assert_eq!(sel[0].to.key, "/B/b");
        assert_eq!(sel[1].to.key, "/B/c");
    }
}

#[test]
fn label_group_partitions_draw_space() {
    // one label, proportions 1 and 3: contiguous intervals over sum 4
    let flows = vec![flow("/B/a", "/B/b", "canary", 1), flow("/B/a", "/B/c", "canary", 3)];
    let groups = get_label_groups(&flows);
    assert_eq!(groups.len(), 1);
    assert_eq!(groups[0].label, "canary");
    assert_eq!(groups[0].members.len(), 2);
    let table = weight_calculate(&groups);
    assert_eq!(table.len(), 2);
    assert_eq!((table[0].begin, table[0].end, table[0].sum), (0, 1, 4));
    assert_eq!((table[1].begin, table[1].end, table[1].sum), (1, 4, 4));
    // a draw in the first quarter picks the first destination only
    let low = weight_filter(&flows, &table, 0);
    assert_eq!(low.len(), 1);
    assert_eq!(low[0].to.key, "/B/b");
    // a draw in the upper three quarters picks the second only
    let high = weight_filter(&flows, &table, u32::MAX / 2);
    assert_eq!(high.len(), 1);
    assert_eq!(high[0].to.key, "/B/c");
    // the top of the draw space is covered: no gap below the end
    let top = weight_filter(&flows, &table, u32::MAX);
    assert_eq!(top.len(), 1);
    assert_eq!(top[0].to.key, "/B/c");
}

#[test]
fn label_group_sampling_is_proportional() {
    // equal proportions: at high trial counts both destinations are
    // drawn, and every draw selects exactly one member of the group
    let store = RelationStore {
        flows: vec![flow("/B/a", "/B/b", "canary", 1), flow("/B/a", "/B/c", "canary", 1)],
        available: true,
    };
    let mut cache = OneStepFlowCacheImpl::new(3600);
    let mut first = 0u32;
    let mut second = 0u32;
    for _ in 0..400 {
        let sel = cache.get(&store, &thing("/B/a")).unwrap();
        assert_eq!(sel.len(), 1);
        if sel[0].to.key == "/B/b" {
            first += 1;
        } else {
            second += 1;
        }
    }
    assert!(first > 0);
    assert!(second > 0);
    // within tolerance of the 50/50 split
    assert!(first > 100 && second > 100);
}

#[test]
fn zero_proportion_group_is_unconditional() {
    // a group whose proportions sum to zero derives no intervals
    let flows = vec![flow("/B/a", "/B/b", "canary", 0)];
    let resolved = ResolvedFlows::new(flows);
    assert_eq!(resolved.table().len(), 0);
    assert_eq!(resolved.flows().len(), 1);
}

#[test]
fn population_is_reproducible() {
    // resolving the same flow list twice derives the same table, so a
    // racing double population writes identical entries
    let mk = || vec![flow("/B/a", "/B/b", "canary", 2), flow("/B/a", "/B/c", "canary", 6)];
    let r1 = ResolvedFlows::new(mk());
    let r2 = ResolvedFlows::new(mk());
    assert_eq!(r1.table().len(), r2.table().len());
    for k in 0..r1.table().len() {
        let a = &r1.table()[k];
        let b = &r2.table()[k];
        assert_eq!((a.begin, a.end, a.sum), (b.begin, b.end, b.sum));
        assert_eq!(a.to.key, b.to.key);
    }
}

#[test]
fn cache_reports_store_outage() {
    let store = RelationStore { flows: vec![], available: false };
    let mut cache = OneStepFlowCacheImpl::new(3600);
    let r = cache.get(&store, &thing("/B/a"));
    assert!(matches!(r, Err(nature::domain::NatureError::DaoEnvironmentError(_))));
}

#[test]
fn cached_resolution_is_stable() {
    // two resolutions for the same stream return the same pair: the
    // second is answered without touching the store's flows again
    let store = RelationStore {
        flows: vec![flow("/B/a", "/B/b", "canary", 2), flow("/B/a", "/B/c", "", 0)],
        available: true,
    };
    let mut cache = OneStepFlowCacheImpl::new(3600);
    let p1 = cache.get_balanced(&store, &thing("/B/a")).unwrap();
    let p2 = cache.get_balanced(&store, &thing("/B/a")).unwrap();
    assert_eq!(p1.flows().len(), p2.flows().len());
    assert_eq!(p1.table().len(), p2.table().len());
}
