use cloudflare::endpoints::zones::purge_cache::{PurgeCache, PurgeCacheParams};
use cloudflare::framework::endpoint::{Method, RequestBody};
use serde_json::Value;

fn object(members: Vec<(&str, Value)>) -> Value {
    let mut m = serde_json::Map::new();
    for (k, v) in members {
        m.insert(k.to_string(), v);
    }
    Value::Object(m)
}

#[test]
fn serializes_purge_everything() {
    let text = PurgeCacheParams::everything().to_json();
    assert_eq!(
        serde_json::from_str::<Value>(&text).unwrap(),
        object(vec![("purge_everything", Value::Bool(true))])
    );
}

#[test]
fn selective_purge_omits_empty_lists() {
    let params = PurgeCacheParams::Selective {
        files: vec![],
        tags: vec![],
        hosts: vec!["www.example.com".into()],
        prefixes: vec![],
    };
    assert_eq!(
        serde_json::from_str::<Value>(&params.to_json()).unwrap(),
        object(vec![(
            "hosts",
            Value::Array(vec![Value::String("www.example.com".into())])
        )])
    );
}

#[test]
fn purge_endpoint_posts_params() {
    let endpoint = PurgeCache {
        zone_identifier: "abc",
        params: PurgeCacheParams::Selective {
            files: vec!["https://example.com/a".into(), "https://example.com/b".into()],
            tags: vec![],
            hosts: vec![],
            prefixes: vec!["example.com/p".into()],
        },
    };
    assert_eq!(endpoint.method(), Method::Post);
    assert_eq!(endpoint.path(), "zones/abc/purge_cache");
    match endpoint.body() {
        Some(RequestBody::Json(text)) => assert_eq!(
            text,
            "{\"files\":[\"https://example.com/a\",\"https://example.com/b\"],\"prefixes\":[\"example.com/p\"]}"
        ),
        other => panic!("unexpected body {:?}", other),
    }
    let nothing = PurgeCacheParams::Selective { files: vec![], tags: vec![], hosts: vec![], prefixes: vec![] };
    assert_eq!(nothing.to_json(), "{}");
}
