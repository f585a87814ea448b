use chrono::TimeZone;
use nature::actor::{ConvertActor, MsgForTask, ParallelActor};
use nature::convert::{CallOut, CallOutParaWrapper, TaskForConvert};
use nature::domain::{
    ConverterReturned, Executor, Instance, InstanceNoID, Mission, NatureError,
    ParallelBatchInstance, Protocol, Thing, ThingDefine, ThingType,
};
use nature::meta::MetaService;
use nature::store::{Store, ThingDefines};

fn thing(key: &str) -> Thing {
    Thing { key: key.to_string(), version: 1, thing_type: ThingType::Business }
}

fn instance_at(id: u128, key: &str, create_time: i64) -> Instance {
    Instance {
        id,
        data: InstanceNoID {
            thing: thing(key),
            event_time: create_time,
            execute_time: create_time,
            create_time,
            content: String::new(),
            context: Vec::new(),
            status: Vec::new(),
            status_version: 0,
        },
    }
}

fn lts(y: i32, mo: u32, d: u32, h: u32, mi: u32, s: u32, ms: u32) -> i64 {
    let ndt = chrono::NaiveDate::from_ymd_opt(y, mo, d)
        .unwrap()
        .and_hms_milli_opt(h, mi, s, ms)
        .unwrap();
    chrono::Local.from_local_datetime(&ndt).unwrap().timestamp_millis()
}

fn mission(protocol: Protocol, url: &str, settings: &str) -> Mission {
    Mission {
        to: thing("/B/sale"),
        executor: Executor { protocol, url: url.to_string() },
        settings: settings.to_string(),
    }
}

#[test]
fn http_mission_becomes_a_remote_directive() {
    let task = TaskForConvert { from: instance_at(1, "/B/x", 0), last_status: None };
    let m = mission(Protocol::Http, "http://converter/run", "{}");
    let out = CallOutParaWrapper::gen_and_call_out(&task, 42, &m).unwrap();
    match out {
        CallOut::Remote(url, para) => {
            assert_eq!(url, "http://converter/run");
            assert_eq!(para.carrier_id, 42);
            assert_eq!(para.from.id, 1);
        }
        CallOut::Done(_) => panic!("an HTTP mission must not run locally"),
    }
}

#[test]
fn unknown_protocol_is_refused_without_running() {
    let task = TaskForConvert { from: instance_at(1, "/B/x", 0), last_status: None };
    let m = mission(Protocol::Rpc, "anywhere", "{}");
    let r = CallOutParaWrapper::gen_and_call_out(&task, 42, &m);
    assert!(matches!(r, Err(NatureError::ConverterProtocolError(_))));
}

#[test]
fn local_timer_mission_computes_the_window() {
    let t = lts(2020, 5, 1, 18, 36, 23, 123);
    let task = TaskForConvert { from: instance_at(1, "/B/x", t), last_status: None };
    let m = mission(Protocol::LocalRust, "timer", "{}");
    let out = CallOutParaWrapper::gen_and_call_out(&task, 7, &m).unwrap();
    let expected = format!(
        "{}/{}",
        lts(2020, 5, 1, 18, 36, 23, 0),
        lts(2020, 5, 1, 18, 36, 24, 0)
    );
    match out {
        CallOut::Done(ConverterReturned::Instances(v)) => {
            assert_eq!(v.len(), 1);
            assert_eq!(v[0].data.content, expected);
        }
        _ => panic!("a local timer mission must produce one snapshot"),
    }
}

#[test]
fn local_mission_with_unknown_target_is_a_logical_error() {
    let task = TaskForConvert { from: instance_at(1, "/B/x", 0), last_status: None };
    let m = mission(Protocol::LocalRust, "no-such-converter", "{}");
    let out = CallOutParaWrapper::gen_and_call_out(&task, 7, &m).unwrap();
    assert!(matches!(out, CallOut::Done(ConverterReturned::LogicalError(_))));
}

#[test]
fn local_mission_accepts_a_spaced_setting() {
    let t = lts(2020, 5, 1, 18, 36, 23, 123);
    let task = TaskForConvert { from: instance_at(1, "/B/x", t), last_status: None };
    let m = mission(Protocol::LocalRust, "timer", " { \"value\" : 15 } ");
    let out = CallOutParaWrapper::gen_and_call_out(&task, 7, &m).unwrap();
    let expected = format!(
        "{}/{}",
        lts(2020, 5, 1, 18, 36, 15, 0),
        lts(2020, 5, 1, 18, 36, 16, 0)
    );
    match out {
        CallOut::Done(ConverterReturned::Instances(v)) => {
            assert_eq!(v.len(), 1);
            assert_eq!(v[0].data.content, expected);
        }
        _ => panic!("a spaced setting must still compute the window"),
    }
}

#[test]
fn local_mission_with_bad_setting_is_a_logical_error() {
    let t = lts(2020, 5, 1, 18, 36, 23, 123);
    let task = TaskForConvert { from: instance_at(1, "/B/x", t), last_status: None };
    let m = mission(Protocol::LocalRust, "timer", "not json");
    let out = CallOutParaWrapper::gen_and_call_out(&task, 7, &m).unwrap();
    assert!(matches!(out, CallOut::Done(ConverterReturned::LogicalError(_))));
}

fn engine() -> Store {
    Store::new(ThingDefines {
        defines: vec![ThingDefine { key: "/B/sale".to_string(), version: 1, is_status: false }],
    })
}

#[test]
fn parallel_consumer_submits_each_member_independently() {
    let mut store = engine();
    let batch = ParallelBatchInstance(vec![
        instance_at(1, "/B/sale", 0),
        instance_at(2, "", 0),
        instance_at(3, "/B/sale", 0),
    ]);
    ParallelActor::handle(&MsgForTask(batch, 99), &mut store);
    // the invalid member fails on its own; the others are persisted
    assert_eq!(store.table.rows.len(), 2);
    assert_eq!(store.delivery.route.len(), 2);
}

#[test]
fn conversion_consumer_feeds_produced_snapshots_back() {
    let mut store = engine();
    let t = lts(2020, 5, 1, 18, 36, 23, 123);
    let task = TaskForConvert { from: instance_at(1, "/B/sale", t), last_status: None };
    let m = mission(Protocol::LocalRust, "timer", "{}");
    let r = ConvertActor::handle(&MsgForTask(task, 5), &m, &mut store);
    assert!(r.is_none());
    assert_eq!(store.table.rows.len(), 1);
    // an HTTP mission is handed back for the transport layer
    let task2 = TaskForConvert { from: instance_at(2, "/B/sale", t), last_status: None };
    let m2 = mission(Protocol::Http, "http://conv", "{}");
    let r2 = ConvertActor::handle(&MsgForTask(task2, 6), &m2, &mut store);
    assert!(r2.is_some());
}

#[test]
fn metadata_page_size_is_capped() {
    assert_eq!(MetaService::id_great_than(10, 50, 100), (10, 50));
    assert_eq!(MetaService::id_great_than(10, 500, 100), (10, 100));
    assert_eq!(MetaService::id_great_than(0, 100, 100), (0, 100));
}
