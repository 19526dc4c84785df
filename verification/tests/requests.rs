use send_core::executor::{
    build_multipart_parts, method_of, plan_request, BodyPlan, Method, PartPlan,
};
use send_core::model::{BodyType, Environment, FormDataEntry, HttpRequest};
use send_core::url::append_query_params;

fn request() -> HttpRequest {
    HttpRequest {
        id: "r1".to_string(),
        name: "Test".to_string(),
        method: "GET".to_string(),
        url: "https://x.test/search".to_string(),
        headers: vec![],
        body: String::new(),
        body_type: BodyType::NoBody,
        form_data: vec![],
        url_encoded_data: vec![],
        query_params: vec![],
    }
}

#[test]
fn query_params_are_encoded_and_joined() {
    let pairs = vec![
        ("q".to_string(), "a b".to_string()),
        ("n".to_string(), "1".to_string()),
    ];
    let url = append_query_params("https://x.test/search", &pairs);
    assert_eq!(url, "https://x.test/search?q=a%20b&n=1");
}

#[test]
fn existing_query_component_is_extended() {
    let pairs = vec![("n".to_string(), "2".to_string())];
    let url = append_query_params("https://x.test/search?q=1", &pairs);
    assert_eq!(url, "https://x.test/search?q=1&n=2");
}

#[test]
fn encoding_keeps_unreserved_and_escapes_the_rest() {
    let pairs = vec![
        ("AZaz09-._~".to_string(), "k&v=?/".to_string()),
        ("e".to_string(), "é".to_string()),
    ];
    let url = append_query_params("https://x.test", &pairs);
    // multi-byte characters are escaped byte by byte, with uppercase digits
    assert_eq!(url, "https://x.test?AZaz09-._~=k%26v%3D%3F%2F&e=%C3%A9");
}

#[test]
fn planned_url_filters_blank_keys_before_resolving() {
    let mut r = request();
    r.query_params = vec![
        ("q".to_string(), "a b".to_string()),
        ("  ".to_string(), "dropped".to_string()),
        ("n".to_string(), "1".to_string()),
    ];
    let plan = plan_request(&r, None);
    assert_eq!(plan.url, "https://x.test/search?q=a%20b&n=1");
}

#[test]
fn planned_url_resolves_template_and_params() {
    let e = Environment {
        name: "env".to_string(),
        variables: vec![
            ("base".to_string(), "https://api.test".to_string()),
            ("term".to_string(), "a b".to_string()),
        ],
    };
    let mut r = request();
    r.url = "{{base}}/search".to_string();
    r.query_params = vec![("q".to_string(), "{{term}}".to_string())];
    let plan = plan_request(&r, Some(&e));
    assert_eq!(plan.url, "https://api.test/search?q=a%20b");
}

#[test]
fn method_tags_map_to_the_seven_verbs() {
    assert_eq!(method_of("GET"), Method::Get);
    assert_eq!(method_of("POST"), Method::Post);
    assert_eq!(method_of("PUT"), Method::Put);
    assert_eq!(method_of("DELETE"), Method::Delete);
    assert_eq!(method_of("PATCH"), Method::Patch);
    assert_eq!(method_of("HEAD"), Method::Head);
    assert_eq!(method_of("OPTIONS"), Method::Options);
    assert_eq!(method_of("get"), Method::Get);
    assert_eq!(method_of(""), Method::Get);
    assert_eq!(method_of("TRACE"), Method::Get);
    assert_eq!(method_of("POST").wire_name(), "POST");
}

#[test]
fn blank_headers_are_dropped_and_values_resolved() {
    let e = Environment {
        name: "env".to_string(),
        variables: vec![("tok".to_string(), "abc".to_string())],
    };
    let mut r = request();
    r.headers = vec![
        ("Authorization".to_string(), "Bearer {{tok}}".to_string()),
        ("".to_string(), "nameless".to_string()),
        ("X-Empty".to_string(), "  ".to_string()),
    ];
    let plan = plan_request(&r, Some(&e));
    assert_eq!(plan.headers, vec![("Authorization".to_string(), "Bearer abc".to_string())]);
}

#[test]
fn raw_body_sent_when_nonblank() {
    let mut r = request();
    r.body_type = BodyType::Raw;
    r.body = "hello".to_string();
    let plan = plan_request(&r, None);
    match plan.body {
        BodyPlan::Raw { text } => assert_eq!(text, "hello"),
        _ => panic!("expected a raw body"),
    }

    let mut blank = request();
    blank.body_type = BodyType::Raw;
    blank.body = "   ".to_string();
    match plan_request(&blank, None).body {
        BodyPlan::Empty => {}
        _ => panic!("blank body must be dropped"),
    }
}

#[test]
fn bare_body_kind_sends_nothing() {
    let mut r = request();
    r.body = "leftover".to_string();
    r.body_type = BodyType::NoBody;
    match plan_request(&r, None).body {
        BodyPlan::Empty => {}
        _ => panic!("no body expected"),
    }
}

#[test]
fn multipart_plan_keeps_entries_and_headers() {
    let mut r = request();
    r.body_type = BodyType::FormData;
    r.headers = vec![("X-Trace".to_string(), "abc".to_string())];
    r.form_data = vec![FormDataEntry::Text {
        key: "k".to_string(),
        value: "v".to_string(),
    }];
    let plan = plan_request(&r, None);
    // headers are attached for every body kind, multipart included
    assert_eq!(plan.headers, vec![("X-Trace".to_string(), "abc".to_string())]);
    match plan.body {
        BodyPlan::Multipart { entries } => assert_eq!(entries.len(), 1),
        _ => panic!("expected a multipart body"),
    }
}

#[test]
fn url_encoded_plan_filters_blank_keys() {
    let mut r = request();
    r.body_type = BodyType::UrlEncoded;
    r.url_encoded_data = vec![
        ("a".to_string(), "1".to_string()),
        (" ".to_string(), "dropped".to_string()),
    ];
    match plan_request(&r, None).body {
        BodyPlan::FormUrlEncoded { pairs } => {
            assert_eq!(pairs, vec![("a".to_string(), "1".to_string())]);
        }
        _ => panic!("expected form pairs"),
    }
}

#[test]
fn unreadable_file_field_is_omitted_from_multipart() {
    let entries = vec![
        FormDataEntry::Text {
            key: "note".to_string(),
            value: "hello".to_string(),
        },
        FormDataEntry::File {
            key: "upload".to_string(),
            file_path: "/definitely/not/here.bin".to_string(),
            file_name: "here.bin".to_string(),
        },
    ];
    // the second read failed: that field is simply absent
    let reads = vec![None, None];
    let parts = build_multipart_parts(&entries, reads);
    assert_eq!(parts.len(), 1);
    match &parts[0] {
        PartPlan::Text { key, value } => {
            assert_eq!(key, "note");
            assert_eq!(value, "hello");
        }
        _ => panic!("expected the text part alone"),
    }
}

#[test]
fn readable_file_field_becomes_a_file_part() {
    let entries = vec![FormDataEntry::File {
        key: "upload".to_string(),
        file_path: "/tmp/x.bin".to_string(),
        file_name: "x.bin".to_string(),
    }];
    let reads = vec![Some(vec![1u8, 2, 3])];
    let parts = build_multipart_parts(&entries, reads);
    assert_eq!(parts.len(), 1);
    match &parts[0] {
        PartPlan::File { key, data, file_name } => {
            assert_eq!(key, "upload");
            assert_eq!(data, &vec![1u8, 2, 3]);
            assert_eq!(file_name, "x.bin");
        }
        _ => panic!("expected the file part"),
    }
}

#[test]
fn blank_form_keys_are_omitted() {
    let entries = vec![
        FormDataEntry::Text {
            key: "  ".to_string(),
            value: "v".to_string(),
        },
        FormDataEntry::File {
            key: "k".to_string(),
            file_path: "  ".to_string(),
            file_name: "n".to_string(),
        },
    ];
    let reads = vec![None, Some(vec![9u8])];
    let parts = build_multipart_parts(&entries, reads);
    assert!(parts.is_empty());
}
