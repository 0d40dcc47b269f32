use cloudflare::framework::json::JsonValue;
use cloudflare::framework::response::api_fail::{ApiErrors, ApiFailure};
use cloudflare::framework::response::ResponseInfo;

fn model(v: &serde_json::Value) -> JsonValue {
    match v {
        serde_json::Value::Null => JsonValue::Null,
        serde_json::Value::Bool(b) => JsonValue::Bool(*b),
        serde_json::Value::Number(n) => JsonValue::Number(n.to_string()),
        serde_json::Value::String(s) => JsonValue::String(s.clone()),
        serde_json::Value::Array(items) => JsonValue::Array(items.iter().map(model).collect()),
        serde_json::Value::Object(m) => {
            JsonValue::Object(m.iter().map(|(k, v)| (k.clone(), model(v))).collect())
        }
    }
}

fn info(code: u16, message: &str) -> ResponseInfo {
    ResponseInfo { code, message: message.to_owned(), other: Vec::new() }
}

#[test]
fn api_failure_eq() {
    let err1 = ApiFailure::Error(
        404,
        ApiErrors { errors: vec![info(1000, "some failed")], other: Vec::new() },
    );
    assert_eq!(err1, err1);

    let err2 = ApiFailure::Error(
        404,
        ApiErrors { errors: vec![info(1000, "some different thing failed")], other: Vec::new() },
    );
    assert_ne!(err2, err1);

    let not_real_website = "notavalid:url.evena little";
    let fail = ApiFailure::Invalid(reqwest::blocking::get(not_real_website).unwrap_err().to_string());
    assert_eq!(fail, fail);
    assert_ne!(fail, err1);
    assert_ne!(fail, err2);
}

#[test]
fn display_omits_empty_envelope_fields() {
    let body: serde_json::Value = serde_json::from_str(
        r#"{"success": false,
            "errors": [{ "code": 9109, "message": "Invalid access token" }],
            "messages": [],
            "result": null,
            "zeta": "kept",
            "alpha": ["kept"]}"#,
    )
    .unwrap();
    let mut other: Vec<(String, JsonValue)> = Vec::new();
    for (k, v) in body.as_object().unwrap() {
        if k != "errors" {
            other.push((k.clone(), model(v)));
        }
    }
    other.reverse();
    let errors = ApiErrors { other, errors: vec![info(9109, "Invalid access token")] };
    let fail = ApiFailure::Error(403, errors);
    assert_eq!(
        fail.to_string(),
        "HTTP 403 Forbidden\n9109: Invalid access token\nalpha: [\"kept\"]\nzeta: \"kept\""
    );
}

#[test]
fn equality_ignores_other_fields() {
    let mut with_other = info(7, "m");
    with_other.other.push(("detail".into(), JsonValue::Bool(true)));
    let a = ApiErrors { errors: vec![with_other], other: vec![("x".into(), JsonValue::Null)] };
    let b = ApiErrors { errors: vec![info(7, "m")], other: Vec::new() };
    assert_eq!(a, b);
    let c = ApiErrors { errors: vec![info(8, "m")], other: Vec::new() };
    assert_ne!(a, c);
    assert_ne!(ApiFailure::Error(400, a), ApiFailure::Error(401, b));
}

#[test]
fn display_shows_error_details_and_nested_values() {
    let mut e = info(1004, "DNS Validation Error");
    e.other.push(("source".into(), JsonValue::String("ttl".into())));
    let errors = ApiErrors {
        errors: vec![e, info(1, "second")],
        other: vec![
            ("result_info".into(), JsonValue::Number("1".into())),
            ("b".into(), JsonValue::Object(vec![("n".into(), JsonValue::Number("1.5".into()))])),
            ("a".into(), JsonValue::Array(vec![JsonValue::Null, JsonValue::Bool(false)])),
        ],
    };
    let fail = ApiFailure::Error(400, errors);
    assert_eq!(
        fail.to_string(),
        "HTTP 400 Bad Request\n1004: DNS Validation Error ({\"source\": String(\"ttl\")})\n1: second\na: [null,false]\nb: {\"n\":1.5}"
    );
}

#[test]
fn display_of_unknown_status_and_invalid() {
    let fail = ApiFailure::Error(599, ApiErrors::empty());
    assert_eq!(fail.to_string(), "HTTP 599 <unknown status code>");
    let outside = ApiFailure::Error(42, ApiErrors::empty());
    assert_eq!(outside.to_string(), "HTTP 42 <unknown status code>");
    let invalid = ApiFailure::Invalid("error decoding response body".into());
    assert_eq!(invalid.to_string(), "error decoding response body");
}

#[test]
fn json_value_texts() {
    let v = JsonValue::Array(vec![
        JsonValue::String("a\"b".into()),
        JsonValue::Number("-3".into()),
        JsonValue::Object(vec![]),
    ]);
    assert_eq!(v.to_json_text(), "[\"a\\\"b\",-3,{}]");
    assert_eq!(v.to_debug_text(), "Array [String(\"a\\\"b\"), Number(-3), Object {}]");
    assert!(JsonValue::Null.is_null());
    assert!(JsonValue::Array(vec![]).is_empty_array());
    assert!(!JsonValue::Array(vec![JsonValue::Null]).is_empty_array());
}

fn top_fields() -> Vec<(String, JsonValue)> {
    vec![
        ("zeta".to_string(), JsonValue::String("z".into())),
        ("alpha".to_string(), JsonValue::Number("1".into())),
        ("result".to_string(), JsonValue::Null),
        ("beta".to_string(), JsonValue::Bool(true)),
    ]
}

#[test]
fn display_does_not_depend_on_field_order() {
    let mut reversed = top_fields();
    reversed.reverse();
    let a = ApiFailure::Error(409, ApiErrors { errors: vec![info(1, "m")], other: top_fields() });
    let b = ApiFailure::Error(409, ApiErrors { errors: vec![info(1, "m")], other: reversed });
    assert_eq!(a.to_string(), b.to_string());
    assert_eq!(a.to_string(), "HTTP 409 Conflict\n1: m\nalpha: 1\nbeta: true\nzeta: \"z\"");
}

#[test]
fn well_formed_failures_hold_sorted_objects_and_distinct_keys() {
    let sorted = JsonValue::Object(vec![
        ("a".into(), JsonValue::Null),
        ("b".into(), JsonValue::Array(vec![JsonValue::Object(vec![])])),
    ]);
    assert!(sorted.is_wf());
    let unsorted = JsonValue::Object(vec![("b".into(), JsonValue::Null), ("a".into(), JsonValue::Null)]);
    assert!(!unsorted.is_wf());
    let nested = JsonValue::Array(vec![JsonValue::Object(vec![
        ("a".into(), JsonValue::Null),
        ("a".into(), JsonValue::Null),
    ])]);
    assert!(!nested.is_wf());
    let ok = ApiFailure::Error(400, ApiErrors { errors: vec![], other: vec![("x".into(), sorted)] });
    assert!(ok.is_wf());
    let dup = ApiFailure::Error(
        400,
        ApiErrors {
            errors: vec![],
            other: vec![("x".into(), JsonValue::Null), ("x".into(), JsonValue::Bool(true))],
        },
    );
    assert!(!dup.is_wf());
    let mut e = info(1, "m");
    e.other.push(("d".into(), unsorted));
    let bad_error = ApiFailure::Error(400, ApiErrors { errors: vec![e], other: vec![] });
    assert!(!bad_error.is_wf());
    assert!(ApiFailure::Invalid("x".into()).is_wf());
}
