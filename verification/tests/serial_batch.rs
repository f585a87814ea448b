use std::cell::Cell;

use nature::domain::{
    Instance, InstanceNoID, NatureError, SerialBatchInstance, Thing, ThingDefine, ThingType,
};
use nature::sequential::{SerialFinished, TaskForSerial, TaskForSerialWrapper};

fn thing(key: &str) -> Thing {
    Thing { key: key.to_string(), version: 1, thing_type: ThingType::Business }
}

fn instance(id: u128, key: &str) -> Instance {
    Instance {
        id,
        data: InstanceNoID {
            thing: thing(key),
            event_time: 0,
            execute_time: 0,
            create_time: 0,
            content: String::new(),
            context: Vec::new(),
            status: Vec::new(),
            status_version: 0,
        },
    }
}

fn define(key: &str) -> ThingDefine {
    ThingDefine { key: key.to_string(), version: 1, is_status: false }
}

#[test]
fn three_item_batch_with_one_check_failure_and_one_duplicate() {
    // item 2 fails the checker and is skipped; item 3 hits a duplicate
    // save, which counts as success
    let serial = TaskForSerial {
        thing: thing("/B/batch"),
        context_for_finish: "fin".to_string(),
        instances: vec![
            instance(1, "/B/x"),
            instance(2, "/B/x"),
            instance(3, "/B/x"),
        ],
    };
    let calls = Cell::new(0u32);
    let checker = |_t: &Thing| {
        let n = calls.get() + 1;
        calls.set(n);
        if n == 2 {
            Err(NatureError::LogicalError("checker failed".to_string()))
        } else {
            Ok(define("/B/batch"))
        }
    };
    let saver = |i: &Instance| {
        if i.id == 3 {
            Err(NatureError::DaoDuplicated)
        } else {
            Ok(1usize)
        }
    };
    let fin = TaskForSerialWrapper::save(serial, &checker, &saver).unwrap();
    assert_eq!(fin.succeeded_id, vec![1, 3]);
    assert_eq!(fin.errors, vec!["checker failed".to_string()]);
}

#[test]
fn environment_failure_aborts_the_batch() {
    let serial = TaskForSerial {
        thing: thing("/B/batch"),
        context_for_finish: "fin".to_string(),
        instances: vec![instance(1, "/B/x"), instance(2, "/B/x")],
    };
    let checker = |_t: &Thing| Ok(define("/B/batch"));
    let saver = |i: &Instance| {
        if i.id == 2 {
            Err(NatureError::DaoEnvironmentError("store down".to_string()))
        } else {
            Ok(1usize)
        }
    };
    let r = TaskForSerialWrapper::save(serial, &checker, &saver);
    assert!(matches!(r, Err(NatureError::DaoEnvironmentError(_))));
}

#[test]
fn other_save_failures_are_recorded_locally() {
    let serial = TaskForSerial {
        thing: thing("/B/batch"),
        context_for_finish: "fin".to_string(),
        instances: vec![instance(1, "/B/x"), instance(2, "/B/x")],
    };
    let checker = |_t: &Thing| Ok(define("/B/batch"));
    let saver = |i: &Instance| {
        if i.id == 1 {
            Err(NatureError::DaoError("row too wide".to_string()))
        } else {
            Ok(1usize)
        }
    };
    let fin = TaskForSerialWrapper::save(serial, &checker, &saver).unwrap();
    assert_eq!(fin.succeeded_id, vec![2]);
    assert_eq!(fin.errors, vec!["row too wide".to_string()]);
}

#[test]
fn finish_record_becomes_a_system_snapshot() {
    let fin = SerialFinished {
        succeeded_id: vec![1, 3],
        errors: vec!["bad \"x\"".to_string()],
    };
    let inst = fin.to_virtual_instance("fin").unwrap();
    assert_eq!(inst.id, 0);
    assert_eq!(inst.data.thing.key, "/sys/serial");
    assert_eq!(inst.data.thing.thing_type, ThingType::System);
    assert_eq!(inst.data.context.len(), 1);
    assert_eq!(inst.data.context[0].0, "fin");
    assert_eq!(
        inst.data.context[0].1,
        r#"{"succeeded_id":[1,3],"errors":["bad \"x\""]}"#
    );
}

#[test]
fn empty_finish_record_renders_empty_lists() {
    let fin = SerialFinished { succeeded_id: vec![], errors: vec![] };
    let inst = fin.to_virtual_instance("done").unwrap();
    assert_eq!(inst.data.context[0].1, r#"{"succeeded_id":[],"errors":[]}"#);
}

#[test]
fn batch_snapshot_identity_is_deterministic() {
    let mk = || SerialBatchInstance {
        context_for_finish: "fin".to_string(),
        ignore_error: false,
        instance: vec![instance(10, "/B/x"), instance(11, "/B/x")],
    };
    let mut b1 = mk();
    let mut b2 = mk();
    let i1 = Instance::new_batch_for_serial(&mut b1).unwrap();
    let i2 = Instance::new_batch_for_serial(&mut b2).unwrap();
    assert_eq!(i1.id, i2.id);
    assert_eq!(i1.data.thing.key, "/sys/batch/serial");
    assert_eq!(i1.data.thing.thing_type, ThingType::System);
    // a different member order is a different batch snapshot
    let mut b3 = SerialBatchInstance {
        context_for_finish: "fin".to_string(),
        ignore_error: false,
        instance: vec![instance(11, "/B/x"), instance(10, "/B/x")],
    };
    let i3 = Instance::new_batch_for_serial(&mut b3).unwrap();
    assert_ne!(i1.id, i3.id);
}

#[test]
fn batch_with_invalid_member_is_rejected() {
    let mut batch = SerialBatchInstance {
        context_for_finish: "fin".to_string(),
        ignore_error: false,
        instance: vec![instance(10, "")],
    };
    let r = Instance::new_batch_for_serial(&mut batch);
    assert!(matches!(r, Err(NatureError::VerifyError(_))));
}
