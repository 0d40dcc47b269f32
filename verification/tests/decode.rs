use cloudflare::endpoints::dns::dns::{
    DnsContent, DnsRecord, Meta, RecordContent, RecordFields, UtcTimestamp,
};
use cloudflare::framework::json::JsonValue;
use cloudflare::ip_parse::{parse_ipv4, parse_ipv6};
use cloudflare::net::{Ipv4Address, Ipv6Address};
use serde_json::Value;

fn model(v: &Value) -> JsonValue {
    match v {
        Value::Null => JsonValue::Null,
        Value::Bool(b) => JsonValue::Bool(*b),
        Value::Number(n) => JsonValue::Number(n.to_string()),
        Value::String(s) => JsonValue::String(s.clone()),
        Value::Array(items) => JsonValue::Array(items.iter().map(model).collect()),
        Value::Object(m) => {
            JsonValue::Object(m.iter().map(|(k, v)| (k.clone(), model(v))).collect())
        }
    }
}

fn record_json(record_type: &str, content: &str) -> Value {
    let text = format!(
        r#"{{
            "id": "372e67954025e0ba6aaa6d586b9e0b59",
            "name": "example.com",
            "type": {},
            "content": {},
            "proxiable": false,
            "proxied": false,
            "ttl": 1,
            "meta": {{}},
            "created_on": "2024-01-01T00:00:00Z",
            "modified_on": "2024-01-01T00:00:00Z"
        }}"#,
        Value::String(record_type.to_string()),
        Value::String(content.to_string())
    );
    serde_json::from_str(&text).unwrap()
}

/// The fields of a record object that decide its type and value.
fn fields_of(v: &Value) -> RecordFields {
    let content = match v.get("content") {
        None => RecordContent::Absent,
        Some(Value::String(s)) => RecordContent::Text(s.clone()),
        Some(_) => RecordContent::NotText,
    };
    RecordFields {
        record_type: v.get("type").and_then(Value::as_str).map(str::to_owned),
        content,
        priority: v.get("priority").and_then(Value::as_u64).and_then(|p| u16::try_from(p).ok()),
    }
}

/// A record object as the library holds it.
fn record_of(v: &Value) -> DnsRecord {
    let at = UtcTimestamp { seconds: 1704067200, nanoseconds: 0 };
    DnsRecord {
        meta: Meta {},
        name: v["name"].as_str().unwrap().to_owned(),
        ttl: v["ttl"].as_u64().unwrap() as u32,
        modified_on: at,
        created_on: at,
        proxiable: v["proxiable"].as_bool().unwrap(),
        content: DnsContent::from_fields(fields_of(v)).unwrap(),
        id: v["id"].as_str().unwrap().to_owned(),
        proxied: v["proxied"].as_bool().unwrap(),
        comment: v.get("comment").and_then(Value::as_str).map(str::to_owned),
        tags: v
            .get("tags")
            .and_then(Value::as_array)
            .map(|a| a.iter().map(|t| t.as_str().unwrap().to_owned()).collect())
            .unwrap_or_default(),
        data: v.get("data").map(model),
    }
}

fn member<'a>(v: &'a JsonValue, key: &str) -> Option<&'a JsonValue> {
    match v {
        JsonValue::Object(m) => m.iter().find(|(k, _)| k == key).map(|(_, v)| v),
        _ => None,
    }
}

#[test]
fn known_types_decode_to_their_variant() {
    let caa = record_of(&record_json("CAA", "0 issue \"letsencrypt.org\""));
    assert!(matches!(caa.content, DnsContent::CAA { .. }));

    let mut mx = record_json("MX", "mx.example.com");
    mx["priority"] = Value::from(10);
    let mx = record_of(&mx);
    assert!(matches!(mx.content, DnsContent::MX { priority: 10, .. }));
}

#[test]
fn unmodelled_types_decode_as_other() {
    let mut https = record_json("HTTPS", "1 . alpn=\"h2\"");
    https["data"] =
        serde_json::from_str(r#"{ "priority": 1, "target": ".", "value": "alpn=\"h2\"" }"#).unwrap();
    https["tags"] = serde_json::from_str(r#"["owner:web"]"#).unwrap();
    https["comment"] = Value::from("svcb");
    let record = record_of(&https);

    assert_eq!(record.content.record_type(), "HTTPS");
    assert_eq!(record.content.content(), "1 . alpn=\"h2\"");
    assert!(matches!(
        member(record.data.as_ref().unwrap(), "priority"),
        Some(JsonValue::Number(n)) if n == "1"
    ));
    assert_eq!(record.tags, ["owner:web"]);
    assert_eq!(record.comment.as_deref(), Some("svcb"));
}

#[test]
fn meta_may_be_absent() {
    let mut a = record_json("A", "192.0.2.1");
    a.as_object_mut().unwrap().remove("meta");
    let record = record_of(&a);
    assert!(matches!(record.content, DnsContent::A { .. }));
    assert_eq!(record.content.content(), "192.0.2.1");
}

fn fields(record_type: Option<&str>, content: RecordContent, priority: Option<u16>) -> RecordFields {
    RecordFields { record_type: record_type.map(str::to_owned), content, priority }
}

#[test]
fn a_record_decodes_its_address() {
    let f = fields(Some("A"), RecordContent::Text("192.0.2.1".into()), None);
    match DnsContent::from_fields(f) {
        Some(DnsContent::A { content }) => assert_eq!(content.octets, [192, 0, 2, 1]),
        other => panic!("unexpected {other:?}"),
    }

    let f = fields(Some("AAAA"), RecordContent::Text("2001:DB8::1".into()), None);
    match DnsContent::from_fields(f) {
        Some(DnsContent::AAAA { content }) => {
            assert_eq!(content.segments, [0x2001, 0xdb8, 0, 0, 0, 0, 0, 1])
        }
        other => panic!("unexpected {other:?}"),
    }
}

#[test]
fn ipv4_addresses_parse_in_canonical_form_only() {
    assert_eq!(parse_ipv4("0.0.0.0").map(|a| a.octets), Some([0, 0, 0, 0]));
    assert_eq!(parse_ipv4("255.255.255.255").map(|a| a.octets), Some([255, 255, 255, 255]));
    assert_eq!(parse_ipv4("192.0.2.1").map(|a| a.octets), Some([192, 0, 2, 1]));
    for t in ["10.0.0.01", "256.1.1.1", "1.2.3", "1.2.3.4.5", "", "1..2.3", " 1.2.3.4", "1.2.3.4 ", "1.2.3.1000"] {
        assert!(parse_ipv4(t).is_none(), "{t}");
    }
}

#[test]
fn ipv6_addresses_parse_in_every_written_form() {
    let cases: [(&str, [u16; 8]); 12] = [
        ("::", [0, 0, 0, 0, 0, 0, 0, 0]),
        ("::1", [0, 0, 0, 0, 0, 0, 0, 1]),
        ("1::", [1, 0, 0, 0, 0, 0, 0, 0]),
        ("1:2:3:4:5:6:7:8", [1, 2, 3, 4, 5, 6, 7, 8]),
        ("1:2:3:4:5:6:7::", [1, 2, 3, 4, 5, 6, 7, 0]),
        ("::2:3:4:5:6:7:8", [0, 2, 3, 4, 5, 6, 7, 8]),
        ("0:0:0:0:0:0:0:1", [0, 0, 0, 0, 0, 0, 0, 1]),
        ("2001:DB8::0001", [0x2001, 0xdb8, 0, 0, 0, 0, 0, 1]),
        ("::ffff:192.0.2.1", [0, 0, 0, 0, 0, 0xffff, 0xc000, 0x0201]),
        ("::1.2.3.4", [0, 0, 0, 0, 0, 0, 0x0102, 0x0304]),
        ("1:2:3:4:5:6:1.2.3.4", [1, 2, 3, 4, 5, 6, 0x0102, 0x0304]),
        ("1:2:3:4:5::1.2.3.4", [1, 2, 3, 4, 5, 0, 0x0102, 0x0304]),
    ];
    for (t, s) in cases {
        assert_eq!(parse_ipv6(t).map(|a| a.segments), Some(s), "{t}");
    }
    for t in [
        "1:2:3:4:5:6:7:1.2.3.4", "1::2:3:4:5:6:7:8", ":::", "1:::2", "12345::", "1:2:3:4:5:6:7",
        "::ffff:1.2.3", "1.2.3.4::", "::1.2.3.4:5", "g::", "", "1:2:3:4:5:6:7:8:9", "fe80::1%1",
        "::ffff:0.0.0.256",
    ] {
        assert!(parse_ipv6(t).is_none(), "{t}");
    }
}

#[test]
fn address_texts_parse_back() {
    let addresses: [[u16; 8]; 6] = [
        [0, 0, 0, 0, 0, 0, 0, 0],
        [0, 0, 0, 0, 0, 0, 0, 1],
        [0x2001, 0xdb8, 0, 0, 1, 0, 0, 1],
        [0, 0, 0, 0, 0, 0xffff, 0xc000, 0x0201],
        [1, 0, 1, 0, 1, 0, 1, 0],
        [0xffff, 0xffff, 0xffff, 0xffff, 0xffff, 0xffff, 0xffff, 0xffff],
    ];
    for s in addresses {
        let text = Ipv6Address { segments: s }.to_text();
        assert_eq!(parse_ipv6(&text).map(|a| a.segments), Some(s), "{text}");
    }
    for o in [[0u8, 0, 0, 0], [255, 255, 255, 255], [10, 0, 100, 9]] {
        let text = Ipv4Address { octets: o }.to_text();
        assert_eq!(parse_ipv4(&text).map(|a| a.octets), Some(o), "{text}");
    }
}

#[test]
fn other_address_records_come_back_in_textual_form() {
    let sent = DnsContent::Other { record_type: "AAAA".into(), content: "0:0:0:0:0:0:0:1".into() };
    let json: Value = serde_json::from_str(&sent.to_json()).unwrap();
    let back = DnsContent::from_fields(fields_of(&json)).unwrap();
    assert!(matches!(back, DnsContent::AAAA { .. }));
    assert_eq!(back.content(), "::1");
    let sent = DnsContent::Other { record_type: "A".into(), content: "192.0.2.1".into() };
    let json: Value = serde_json::from_str(&sent.to_json()).unwrap();
    let back = DnsContent::from_fields(fields_of(&json)).unwrap();
    assert!(matches!(back, DnsContent::A { .. }));
    assert_eq!(back.content(), "192.0.2.1");
}

#[test]
fn malformed_known_types_fall_back_to_other() {
    // An A record whose content is no address.
    let f = fields(Some("A"), RecordContent::Text("not-an-address".into()), None);
    match DnsContent::from_fields(f) {
        Some(DnsContent::Other { record_type, content }) => {
            assert_eq!(record_type, "A");
            assert_eq!(content, "not-an-address");
        }
        other => panic!("unexpected {other:?}"),
    }
    // An MX record without a priority.
    let f = fields(Some("MX"), RecordContent::Text("mx.example.com".into()), None);
    match DnsContent::from_fields(f) {
        Some(DnsContent::Other { record_type, content }) => {
            assert_eq!(record_type, "MX");
            assert_eq!(content, "mx.example.com");
        }
        other => panic!("unexpected {other:?}"),
    }
    // A record type without content.
    let f = fields(Some("NS"), RecordContent::Absent, None);
    match DnsContent::from_fields(f) {
        Some(DnsContent::Other { record_type, content }) => {
            assert_eq!(record_type, "NS");
            assert_eq!(content, "");
        }
        other => panic!("unexpected {other:?}"),
    }
}

#[test]
fn records_without_type_or_with_non_text_content_do_not_decode() {
    assert!(DnsContent::from_fields(fields(None, RecordContent::Text("x".into()), None)).is_none());
    assert!(DnsContent::from_fields(fields(Some("TXT"), RecordContent::NotText, None)).is_none());
    assert!(DnsContent::from_fields(fields(Some("HTTPS"), RecordContent::NotText, None)).is_none());
}

#[test]
fn each_known_type_with_text_content_decodes_to_its_variant() {
    let cases: [(&str, fn(&DnsContent) -> bool); 6] = [
        ("CAA", |c| matches!(c, DnsContent::CAA { .. })),
        ("CNAME", |c| matches!(c, DnsContent::CNAME { .. })),
        ("NS", |c| matches!(c, DnsContent::NS { .. })),
        ("PTR", |c| matches!(c, DnsContent::PTR { .. })),
        ("TXT", |c| matches!(c, DnsContent::TXT { .. })),
        ("SRV", |c| matches!(c, DnsContent::SRV { .. })),
    ];
    for (t, is_variant) in cases {
        let c = DnsContent::from_fields(fields(Some(t), RecordContent::Text("v".into()), None)).unwrap();
        assert!(is_variant(&c), "{t}");
        assert_eq!(c.record_type(), t);
        assert_eq!(c.content(), "v");
    }
}

#[test]
fn decoding_gives_back_what_was_sent() {
    let sent = [
        DnsContent::A { content: Ipv4Address { octets: [198, 51, 100, 7] } },
        DnsContent::AAAA { content: Ipv6Address { segments: [0x2001, 0xdb8, 0, 0, 1, 0, 0, 1] } },
        DnsContent::MX { content: "mx.example.com".into(), priority: 20 },
        DnsContent::TXT { content: "v=spf1 -all".into() },
        DnsContent::Other { record_type: "HTTPS".into(), content: "1 . alpn=h2".into() },
    ];
    for c in sent {
        let json: Value = serde_json::from_str(&c.to_json()).unwrap();
        let f = fields_of(&json);
        let back = DnsContent::from_fields(f).unwrap();
        assert_eq!(back.record_type(), c.record_type());
        assert_eq!(back.content(), c.content());
        assert_eq!(
            matches!(back, DnsContent::Other { .. }),
            matches!(c, DnsContent::Other { .. })
        );
        if let DnsContent::MX { priority, .. } = back {
            assert_eq!(priority, 20);
        }
    }
}
