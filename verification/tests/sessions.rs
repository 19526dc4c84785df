use send_core::gate::SendSession;
use send_core::response::{failure_message, shape_error, shape_success, HttpResponse};

#[test]
fn busy_flag_gates_a_second_send() {
    let mut s = SendSession::new();
    assert!(!s.is_loading);
    assert!(s.try_begin_send());
    assert!(s.is_loading);
    // a second send while the first is pending dispatches nothing
    assert!(!s.try_begin_send());
    assert!(s.is_loading);
    assert!(s.current_response.is_none());
    // exactly one completion clears the flag
    s.absorb_result(Err("boom".to_string()));
    assert!(!s.is_loading);
    assert!(s.current_response.is_some());
    // and a new send may start
    assert!(s.try_begin_send());
}

#[test]
fn transport_failure_shapes_a_status_zero_response() {
    let mut s = SendSession::new();
    assert!(s.try_begin_send());
    let desc = failure_message("connection refused");
    assert_eq!(desc, "Request failed: connection refused");
    s.absorb_result(Err(desc));
    let r = s.current_response.expect("a response must be shown");
    assert_eq!(r.status, 0);
    assert_eq!(r.status_text, "Error");
    assert!(r.headers.is_empty());
    assert_eq!(r.body, "Request failed: connection refused");
    assert!(!r.body.is_empty());
    assert_eq!(r.body_size, r.body.len());
    assert_eq!(r.headers_size, 0);
    assert_eq!(r.time, 0);
}

#[test]
fn success_replaces_the_previous_response() {
    let mut s = SendSession::new();
    assert!(s.try_begin_send());
    s.absorb_result(Err(failure_message("first")));
    assert!(s.try_begin_send());
    assert!(s.current_response.is_none());
    let ok = HttpResponse {
        status: 200,
        status_text: "OK".to_string(),
        headers: vec![],
        body: "fine".to_string(),
        time: 3,
        body_size: 4,
        headers_size: 0,
    };
    s.absorb_result(Ok(ok));
    let r = s.current_response.expect("a response must be shown");
    assert_eq!(r.status, 200);
    assert_eq!(r.body, "fine");
}

#[test]
fn shaping_keeps_status_and_falls_back_to_unknown_reason() {
    let headers = vec![
        ("content-type".to_string(), "text/plain".to_string()),
        ("x-a".to_string(), "1".to_string()),
    ];
    let r = shape_success(204, None, &headers, String::new(), 17);
    assert_eq!(r.status, 204);
    assert_eq!(r.status_text, "Unknown");
    assert_eq!(r.time, 17);
    assert_eq!(r.body_size, 0);
    // name + value lengths plus four bytes of separators per header
    assert_eq!(r.headers_size, (12 + 10 + 4) + (3 + 1 + 4));

    let named = shape_success(200, Some("OK".to_string()), &headers, "hi".to_string(), 1);
    assert_eq!(named.status_text, "OK");
    assert_eq!(named.body_size, 2);
}

#[test]
fn later_duplicate_headers_overwrite_earlier() {
    let headers = vec![
        ("x-k".to_string(), "1".to_string()),
        ("x-other".to_string(), "o".to_string()),
        ("x-k".to_string(), "2".to_string()),
    ];
    let r = shape_success(200, Some("OK".to_string()), &headers, String::new(), 0);
    assert_eq!(r.headers.len(), 2);
    let got: Vec<&(String, String)> = r.headers.iter().filter(|p| p.0 == "x-k").collect();
    assert_eq!(got.len(), 1);
    assert_eq!(got[0].1, "2");
    // the size still counts every received header
    assert_eq!(r.headers_size, (3 + 1 + 4) + (7 + 1 + 4) + (3 + 1 + 4));
}

#[test]
fn error_shaping_carries_the_description() {
    let r = shape_error("anything at all".to_string());
    assert_eq!(r.status, 0);
    assert_eq!(r.status_text, "Error");
    assert_eq!(r.body, "anything at all");
    assert_eq!(r.body_size, 15);
}
