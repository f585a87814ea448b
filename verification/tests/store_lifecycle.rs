use nature::domain::{
    Carrier, Instance, InstanceNoID, NatureError, Root, StoreInfo, Thing, ThingDefine, ThingType,
};
use nature::store::{Delivery, InstanceTable, Store, ThingDefines};

fn thing(key: &str) -> Thing {
    Thing { key: key.to_string(), version: 1, thing_type: ThingType::Business }
}

fn instance(id: u128, key: &str) -> Instance {
    Instance {
        id,
        data: InstanceNoID {
            thing: thing(key),
            event_time: 0,
            execute_time: 0,
            create_time: 0,
            content: String::new(),
            context: Vec::new(),
            status: Vec::new(),
            status_version: 0,
        },
    }
}

fn engine() -> Store {
    Store::new(ThingDefines {
        defines: vec![
            ThingDefine { key: "/B/sale".to_string(), version: 1, is_status: false },
            ThingDefine { key: "/B/score".to_string(), version: 1, is_status: true },
        ],
    })
}

#[test]
fn stateless_duplicate_is_idempotent_success() {
    let mut store = engine();
    let r1 = store.submit_single(instance(7, "/B/sale"));
    assert_eq!(r1.unwrap(), 7);
    assert_eq!(store.table.rows.len(), 1);
    assert_eq!(store.delivery.route.len(), 1);
    // the same identifier again: success, nothing rewritten, the
    // carrier is finished instead of routed
    let r2 = store.submit_single(instance(7, "/B/sale"));
    assert_eq!(r2.unwrap(), 7);
    assert_eq!(store.table.rows.len(), 1);
    assert_eq!(store.delivery.route.len(), 1);
    assert_eq!(store.delivery.finished.len(), 1);
}

#[test]
fn stateful_duplicate_takes_the_retry_path() {
    let mut store = engine();
    assert_eq!(store.submit_single(instance(9, "/B/score")).unwrap(), 9);
    // the duplicate is retried once with a corrected status version
    assert_eq!(store.submit_single(instance(9, "/B/score")).unwrap(), 9);
    assert_eq!(store.table.rows.len(), 2);
    assert_eq!(store.table.rows[0].data.status_version, 0);
    assert_eq!(store.table.rows[1].data.status_version, 1);
    assert_eq!(store.delivery.route.len(), 2);
    assert_eq!(store.delivery.finished.len(), 0);
    // and converges: one more duplicate lands on version 2
    assert_eq!(store.submit_single(instance(9, "/B/score")).unwrap(), 9);
    assert_eq!(store.table.rows[2].data.status_version, 2);
}

#[test]
fn empty_key_is_a_verify_error() {
    let mut store = engine();
    let r = store.submit_single(instance(1, ""));
    assert!(matches!(r, Err(NatureError::VerifyError(_))));
    assert_eq!(store.table.rows.len(), 0);
}

#[test]
fn duplicate_on_undefined_stream_is_reported() {
    let mut store = engine();
    assert!(store.submit_single(instance(4, "/B/unknown")).is_ok());
    let r = store.submit_single(instance(4, "/B/unknown"));
    assert!(matches!(r, Err(NatureError::ThingNotDefined(_))));
}

#[test]
fn receive_moves_failures_to_the_error_channel() {
    let mut store = engine();
    let carrier = Delivery::create_carrier(StoreInfo { instance: instance(1, "") });
    store.store_for_receive(carrier);
    assert_eq!(store.delivery.errors.len(), 1);
    assert!(matches!(store.delivery.errors[0].0, NatureError::VerifyError(_)));
    // a good carrier passes through without touching the error channel
    let good = Delivery::create_carrier(StoreInfo { instance: instance(2, "/B/sale") });
    store.store_for_receive(good);
    assert_eq!(store.delivery.errors.len(), 1);
    assert_eq!(store.delivery.route.len(), 1);
}

#[test]
fn zero_identifier_is_corrected() {
    let mut store = engine();
    let id = store.submit_single(instance(0, "/B/sale")).unwrap();
    assert_eq!(store.table.rows.len(), 1);
    assert_eq!(store.table.rows[0].id, id);
}

#[test]
fn table_reports_duplicates_exactly() {
    let mut table = InstanceTable::new();
    assert!(table.insert(instance(5, "/B/sale")).is_ok());
    let r = table.insert(instance(5, "/B/sale"));
    assert!(matches!(r, Err(NatureError::DaoDuplicated)));
    // a different status version of the same identifier is a new row
    let mut bumped = instance(5, "/B/sale");
    bumped.data.status_version = 1;
    assert!(table.insert(bumped).is_ok());
    assert_eq!(table.max_version(5), Some(1));
    assert_eq!(table.max_version(6), None);
}
