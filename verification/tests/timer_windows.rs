use chrono::TimeZone;
use nature::timer::{parse_setting, setting_to_json, Setting};

fn lts(y: i32, mo: u32, d: u32, h: u32, mi: u32, s: u32, ms: u32) -> i64 {
    let ndt = chrono::NaiveDate::from_ymd_opt(y, mo, d)
        .unwrap()
        .and_hms_milli_opt(h, mi, s, ms)
        .unwrap();
    chrono::Local.from_local_datetime(&ndt).unwrap().timestamp_millis()
}

#[test]
fn test() {
    let mut setting = Setting { unit: "s".to_string(), value: 0 };
    let rtn = setting_to_json(&setting);
    assert_eq!(rtn, "{}");
    let rtn: Setting = parse_setting("{}").unwrap();
    assert_eq!(rtn, setting);
    setting.unit = "a".to_string();
    setting.value = 100;
    let rtn = setting_to_json(&setting);
    let json = r#"{"unit":"a","value":100}"#;
    assert_eq!(rtn, json);
    let rtn: Setting = parse_setting(json).unwrap();
    assert_eq!(rtn, setting);
}

#[test]
fn second_test() {
    let time = lts(2020, 5, 1, 18, 36, 23, 123);
    let mut setting = Setting { unit: "s".to_string(), value: 0 };
    let rtn = setting.get_time(time).unwrap();
    let cmp = (lts(2020, 5, 1, 18, 36, 23, 0), lts(2020, 5, 1, 18, 36, 24, 0));
    assert_eq!(rtn, cmp);
    // test interval
    setting.value = 15;
    let rtn = setting.get_time(time).unwrap();
    let cmp = (lts(2020, 5, 1, 18, 36, 15, 0), lts(2020, 5, 1, 18, 36, 16, 0));
    assert_eq!(rtn, cmp);
}

#[test]
fn minute_test() {
    let time = lts(2020, 5, 1, 18, 36, 23, 123);
    let mut setting = Setting { unit: "m".to_string(), value: 0 };
    let rtn = setting.get_time(time).unwrap();
    let cmp = (lts(2020, 5, 1, 18, 36, 0, 0), lts(2020, 5, 1, 18, 37, 0, 0));
    assert_eq!(rtn, cmp);
    // test interval
    setting.value = 10;
    let rtn = setting.get_time(time).unwrap();
    let cmp = (lts(2020, 5, 1, 18, 30, 0, 0), lts(2020, 5, 1, 18, 31, 0, 0));
    assert_eq!(rtn, cmp);
}

#[test]
fn hour_test() {
    let time = lts(2020, 5, 1, 18, 36, 23, 123);
    let mut setting = Setting { unit: "h".to_string(), value: 0 };
    let rtn = setting.get_time(time).unwrap();
    let cmp = (lts(2020, 5, 1, 18, 0, 0, 0), lts(2020, 5, 1, 19, 0, 0, 0));
    assert_eq!(rtn, cmp);
    // test interval
    setting.value = 4;
    let rtn = setting.get_time(time).unwrap();
    let cmp = (lts(2020, 5, 1, 16, 0, 0, 0), lts(2020, 5, 1, 17, 0, 0, 0));
    assert_eq!(rtn, cmp);
}

#[test]
fn day_test() {
    let time = lts(2020, 5, 1, 18, 36, 23, 123);
    let mut setting = Setting { unit: "d".to_string(), value: 0 };
    let rtn = setting.get_time(time).unwrap();
    let cmp = (lts(2020, 5, 1, 0, 0, 0, 0), lts(2020, 5, 2, 0, 0, 0, 0));
    assert_eq!(rtn, cmp);
    // test interval
    setting.value = 3;
    let rtn = setting.get_time(time).unwrap();
    let cmp = (lts(2020, 4, 29, 0, 0, 0, 0), lts(2020, 4, 30, 0, 0, 0, 0));
    assert_eq!(rtn, cmp);
}

#[test]
fn week_test() {
    // the `value` is positive and before the real time
    let time = lts(2020, 5, 1, 18, 36, 23, 123);
    let mut setting = Setting { unit: "w".to_string(), value: 0 };
    let rtn = setting.get_time(time).unwrap();
    let cmp = (lts(2020, 4, 27, 0, 0, 0, 0), lts(2020, 5, 4, 0, 0, 0, 0));
    assert_eq!(rtn, cmp);
    // the `value` is positive and after the real time
    setting.value = 6;
    let rtn = setting.get_time(time).unwrap();
    let cmp = (lts(2020, 4, 26, 0, 0, 0, 0), lts(2020, 5, 3, 0, 0, 0, 0));
    assert_eq!(rtn, cmp);
    // the `value` is negative and before the real time
    setting.value = -7;
    let rtn = setting.get_time(time).unwrap();
    let cmp = (lts(2020, 4, 27, 0, 0, 0, 0), lts(2020, 5, 4, 0, 0, 0, 0));
    assert_eq!(rtn, cmp);
    // the `value` is negative and after the real time
    setting.value = -1;
    let rtn = setting.get_time(time).unwrap();
    let cmp = (lts(2020, 4, 26, 0, 0, 0, 0), lts(2020, 5, 3, 0, 0, 0, 0));
    assert_eq!(rtn, cmp);
    // range test
    setting.value = 7;
    let rtn = setting.get_time(time);
    assert!(rtn.is_err());
    setting.value = -8;
    let rtn = setting.get_time(time);
    assert!(rtn.is_err());
}

#[test]
fn month_test() {
    // the `value` is positive and before the real time
    let time = lts(2020, 5, 28, 18, 36, 23, 123);
    let mut setting = Setting { unit: "M".to_string(), value: 0 };
    let rtn = setting.get_time(time).unwrap();
    let cmp = (lts(2020, 5, 1, 0, 0, 0, 0), lts(2020, 6, 1, 0, 0, 0, 0));
    assert_eq!(rtn, cmp);
    // the `value` is positive and after the real time
    setting.value = 6;
    let rtn = setting.get_time(time).unwrap();
    let cmp = (lts(2020, 5, 7, 0, 0, 0, 0), lts(2020, 6, 7, 0, 0, 0, 0));
    assert_eq!(rtn, cmp);
    // the `value` is negative and before the real time
    setting.value = -5;
    let rtn = setting.get_time(time).unwrap();
    let cmp = (lts(2020, 5, 27, 0, 0, 0, 0), lts(2020, 6, 26, 0, 0, 0, 0));
    assert_eq!(rtn, cmp);
    // the `value` is negative and after the real time
    setting.value = -1;
    let rtn = setting.get_time(time).unwrap();
    let cmp = (lts(2020, 4, 30, 0, 0, 0, 0), lts(2020, 5, 31, 0, 0, 0, 0));
    assert_eq!(rtn, cmp);
    // range test
    setting.value = 19;
    let rtn = setting.get_time(time);
    assert!(rtn.is_ok());
    setting.value = 20;
    let rtn = setting.get_time(time);
    assert!(rtn.is_err());
    setting.value = -20;
    let rtn = setting.get_time(time);
    assert!(rtn.is_ok());
    setting.value = -21;
    let rtn = setting.get_time(time);
    assert!(rtn.is_err());
}

#[test]
fn year_test() {
    // the `value` is positive and before the real time
    let time = lts(2020, 11, 21, 18, 36, 23, 123);
    let mut setting = Setting { unit: "y".to_string(), value: 0 };
    let rtn = setting.get_time(time).unwrap();
    let cmp = (lts(2020, 1, 1, 0, 0, 0, 0), lts(2021, 1, 1, 0, 0, 0, 0));
    assert_eq!(rtn, cmp);
    // the `value` is positive and after the real time
    setting.value = 6;
    let rtn = setting.get_time(time).unwrap();
    let cmp = (lts(2020, 1, 7, 0, 0, 0, 0), lts(2021, 1, 7, 0, 0, 0, 0));
    assert_eq!(rtn, cmp);
    // the `value` is negative and before the real time
    setting.value = -1;
    let rtn = setting.get_time(time).unwrap();
    let cmp = (lts(2019, 12, 31, 0, 0, 0, 0), lts(2020, 12, 31, 0, 0, 0, 0));
    assert_eq!(rtn, cmp);
    // the `value` is negative and after the real time
    setting.value = -50;
    let rtn = setting.get_time(time).unwrap();
    let cmp = (lts(2020, 11, 11, 0, 0, 0, 0), lts(2021, 11, 12, 0, 0, 0, 0));
    assert_eq!(rtn, cmp);
    // range test
    setting.value = 199;
    let rtn = setting.get_time(time);
    assert!(rtn.is_ok());
    setting.value = 200;
    let rtn = setting.get_time(time);
    assert!(rtn.is_err());
    setting.value = -200;
    let rtn = setting.get_time(time);
    assert!(rtn.is_ok());
    setting.value = -201;
    let rtn = setting.get_time(time);
    assert!(rtn.is_err());
}

#[test]
fn setting_codec_edge_cases() {
    // a negative value round-trips
    let s = parse_setting(r#"{"value":-1}"#).unwrap();
    assert_eq!(s.unit, "s");
    assert_eq!(s.value, -1);
    assert_eq!(setting_to_json(&s), r#"{"value":-1}"#);
    // a unit alone round-trips
    let s = parse_setting(r#"{"unit":"w"}"#).unwrap();
    assert_eq!(s.unit, "w");
    assert_eq!(s.value, 0);
    // the fields may come in either order
    let s = parse_setting(r#"{"value":100,"unit":"a"}"#).unwrap();
    assert_eq!(s.unit, "a");
    assert_eq!(s.value, 100);
    // whitespace is tolerated everywhere between tokens
    let s = parse_setting("{ \"unit\" : \"m\" }").unwrap();
    assert_eq!(s.unit, "m");
    assert_eq!(s.value, 0);
    let s = parse_setting("{} ").unwrap();
    assert_eq!(s.unit, "s");
    assert_eq!(s.value, 0);
    // a default may be spelled out
    let s = parse_setting(r#"{"unit":"s"}"#).unwrap();
    assert_eq!(s.unit, "s");
    assert_eq!(s.value, 0);
    let s = parse_setting(r#"{"unit":"s","value":0}"#).unwrap();
    assert_eq!(s.unit, "s");
    assert_eq!(s.value, 0);
    // rejected: no object, a repeated key, an overflowing value
    assert!(parse_setting("").is_none());
    assert!(parse_setting("not json").is_none());
    assert!(parse_setting(r#"{"unit":"a","unit":"b"}"#).is_none());
    assert!(parse_setting(r#"{"value":32768}"#).is_none());
}

#[test]
fn unknown_unit_is_rejected() {
    let setting = Setting { unit: "q".to_string(), value: 0 };
    let time = 1_000_000_000_000i64;
    assert!(setting.get_time(time).is_err());
}
