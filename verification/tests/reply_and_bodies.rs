use std::collections::HashMap;

use condor::cli::find::files_limit;
use condor::cli::sync::history_list_body;
use condor::cli::tui::control_response_body;
use condor::decimal::i32_to_decimal;
use condor::events::{job_completed_payload, job_completed_subject};
use condor::reply::{integer_reply, parse_i32, text_reply, ReplyFault};
use condor::service::{status_update_outcome, StatusUpdateOutcome};

#[test]
fn history_body_is_read_as_counts() {
    let pairs = history_list_body(r#"{"a": 1, "b": 18446744073709551615}"#).unwrap();
    let map: HashMap<String, u64> = pairs.into_iter().collect();
    assert_eq!(map.len(), 2);
    assert_eq!(map["a"], 1);
    assert_eq!(map["b"], u64::MAX);
    assert!(history_list_body("{}").unwrap().is_empty());
}

#[test]
fn history_body_refusals() {
    assert!(history_list_body("not json").is_err());
    assert!(history_list_body(r#"{"a": -1}"#).is_err());
    assert!(history_list_body(r#"{"a": "1"}"#).is_err());
    assert!(history_list_body("[1, 2]").is_err());
}

#[test]
fn history_body_keeps_each_name_once() {
    let pairs = history_list_body(r#"{"a": 1, "a": 2}"#).unwrap();
    assert_eq!(pairs, vec![("a".to_string(), 2)]);
}

#[test]
fn control_response_body_is_any_json() {
    let v = control_response_body(r#"{"x": [1, true, null]}"#).unwrap();
    let items = v["x"].as_array().unwrap();
    assert_eq!(items.len(), 3);
    assert_eq!(items[0], serde_json::Value::from(1));
    assert_eq!(items[1], serde_json::Value::Bool(true));
    assert!(items[2].is_null());
    assert_eq!(control_response_body("3").unwrap(), serde_json::Value::from(3));
    assert!(control_response_body("{").is_err());
    assert!(control_response_body("").is_err());
}

#[test]
fn limit_is_positive_or_absent() {
    assert_eq!(files_limit(Some(5)), Some(5));
    assert_eq!(files_limit(Some(0)), None);
    assert_eq!(files_limit(None), None);
}

#[test]
fn integer_text_as_from_str_reads_it() {
    for t in ["0", "7", "-7", "+7", "007", "2147483647", "-2147483648", "", "-", "+", "2147483648", "-2147483649",
        "12a", " 1", "1 ", "99999999999999999999", "--1", "+-1"] {
        assert_eq!(parse_i32(t), t.parse::<i32>().ok(), "{t:?}");
    }
}

#[test]
fn replies_read_as_text_and_counters() {
    assert_eq!(text_reply(Some("a".to_string())), Ok("a".to_string()));
    assert_eq!(text_reply(None), Err(ReplyFault::Absent));
    assert_eq!(integer_reply(Some("12".to_string())), Ok(12));
    assert_eq!(integer_reply(None), Err(ReplyFault::Absent));
    assert_eq!(integer_reply(Some("x".to_string())), Err(ReplyFault::NotAnInteger("x".to_string())));
}

#[test]
fn law_decimal_reads_back() {
    for n in [0, 1, -1, 10, 255, i32::MAX, i32::MIN, -1000] {
        assert_eq!(integer_reply(Some(i32_to_decimal(n))), Ok(n));
    }
}

#[test]
fn status_update_after_the_write() {
    assert_eq!(status_update_outcome(false, true, "g", "j", true), StatusUpdateOutcome::Failed);
    assert_eq!(
        status_update_outcome(true, true, "g", "j", true),
        StatusUpdateOutcome::Written {
            success: true,
            announcement: Some((job_completed_subject("g"), job_completed_payload("g", "j"))),
        }
    );
    assert_eq!(
        status_update_outcome(true, true, "", "j", true),
        StatusUpdateOutcome::Written { success: true, announcement: None }
    );
    assert_eq!(
        status_update_outcome(true, false, "g", "j", true),
        StatusUpdateOutcome::Written { success: true, announcement: None }
    );
    assert_eq!(
        status_update_outcome(true, true, "g", "j", false),
        StatusUpdateOutcome::Written { success: true, announcement: None }
    );
}
