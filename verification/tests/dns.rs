use cloudflare::endpoints::dns::dns::{
    CreateDnsRecord, CreateDnsRecordParams, DeleteDnsRecord, DnsContent, DnsRecordDetails,
    ExportDnsRecords, ListDnsRecords, ListDnsRecordsOrder, ListDnsRecordsParams,
    ListDnsRecordsParamsContent, ListDnsRecordsParamsName, PatchDnsRecord, PatchDnsRecordParams,
    UpdateDnsRecord, UpdateDnsRecordParams,
};
use cloudflare::framework::endpoint::{Method, RequestBody};
use cloudflare::framework::{OrderDirection, SearchMatch};
use cloudflare::net::{Ipv4Address, Ipv6Address};
use serde_json::Value;

fn object(members: Vec<(&str, Value)>) -> Value {
    let mut m = serde_json::Map::new();
    for (k, v) in members {
        m.insert(k.to_string(), v);
    }
    Value::Object(m)
}

fn parse(text: &str) -> Value {
    serde_json::from_str(text).unwrap()
}

fn v6(segments: [u16; 8]) -> String {
    Ipv6Address { segments }.to_text()
}

#[test]
fn other_serializes_type_and_content() {
    let content = DnsContent::Other {
        record_type: "PTR".into(),
        content: "host.example.com".into(),
    };
    assert_eq!(
        parse(&content.to_json()),
        object(vec![
            ("type", Value::String("PTR".into())),
            ("content", Value::String("host.example.com".into())),
        ])
    );
}

#[test]
fn patch_sends_only_set_fields() {
    let params = PatchDnsRecordParams {
        proxied: Some(false),
        ..Default::default()
    };
    assert_eq!(
        parse(&params.to_json()),
        object(vec![("proxied", Value::Bool(false))])
    );

    let params = PatchDnsRecordParams {
        content: Some(DnsContent::A {
            content: Ipv4Address { octets: [192, 0, 2, 2] },
        }),
        ..Default::default()
    };
    assert_eq!(
        parse(&params.to_json()),
        object(vec![
            ("type", Value::String("A".into())),
            ("content", Value::String("192.0.2.2".into())),
        ])
    );
}

#[test]
fn list_filters_type_and_content_independently() {
    let params = ListDnsRecordsParams {
        type_filter: Some("MX".into()),
        content: Some(ListDnsRecordsParamsContent {
            exact: Some("mx.example.com".into()),
            ..Default::default()
        }),
        ..Default::default()
    };
    assert_eq!(
        params.query().unwrap(),
        "type=MX&content.exact=mx.example.com"
    );
}

#[test]
fn patch_body_is_compact_json_in_field_order() {
    let tags = vec!["owner:web".to_string(), "a \"quoted\" tag".to_string()];
    let params = PatchDnsRecordParams {
        ttl: Some(300),
        name: Some("www.example.com"),
        comment: Some("line\nbreak"),
        tags: Some(&tags),
        ..Default::default()
    };
    assert_eq!(
        params.to_json(),
        "{\"ttl\":300,\"name\":\"www.example.com\",\"comment\":\"line\\nbreak\",\"tags\":[\"owner:web\",\"a \\\"quoted\\\" tag\"]}"
    );
    assert_eq!(PatchDnsRecordParams::default().to_json(), "{}");
}

#[test]
fn create_body_flattens_mx_content() {
    let endpoint = CreateDnsRecord {
        zone_identifier: "zone",
        params: CreateDnsRecordParams {
            ttl: None,
            priority: None,
            proxied: Some(true),
            name: "example.com",
            content: DnsContent::MX {
                content: "mx.example.com".into(),
                priority: 10,
            },
        },
    };
    assert_eq!(endpoint.method(), Method::Post);
    assert_eq!(endpoint.path(), "zones/zone/dns_records");
    match endpoint.body() {
        Some(RequestBody::Json(text)) => assert_eq!(
            text,
            "{\"proxied\":true,\"name\":\"example.com\",\"type\":\"MX\",\"content\":\"mx.example.com\",\"priority\":10}"
        ),
        other => panic!("unexpected body {:?}", other),
    }
}

#[test]
fn update_body_lists_set_fields() {
    let endpoint = UpdateDnsRecord {
        zone_identifier: "zone",
        identifier: "rec",
        params: UpdateDnsRecordParams {
            ttl: Some(1),
            proxied: None,
            name: "example.com",
            content: DnsContent::TXT { content: "v=spf1 -all".into() },
            comment: None,
            tags: None,
        },
    };
    assert_eq!(endpoint.method(), Method::Put);
    assert_eq!(endpoint.path(), "zones/zone/dns_records/rec");
    match endpoint.body() {
        Some(RequestBody::Json(text)) => assert_eq!(
            text,
            "{\"ttl\":1,\"name\":\"example.com\",\"type\":\"TXT\",\"content\":\"v=spf1 -all\"}"
        ),
        other => panic!("unexpected body {:?}", other),
    }
}

#[test]
fn endpoint_methods_and_paths() {
    let delete = DeleteDnsRecord { zone_identifier: "z1", identifier: "r1" };
    assert_eq!(delete.method(), Method::Delete);
    assert_eq!(delete.path(), "zones/z1/dns_records/r1");
    let details = DnsRecordDetails { zone_identifier: "z1", identifier: "r1" };
    assert_eq!(details.method(), Method::Get);
    assert_eq!(details.path(), "zones/z1/dns_records/r1");
    let export = ExportDnsRecords { zone_identifier: "abc" };
    assert_eq!(export.method(), Method::Get);
    assert_eq!(export.path(), "zones/abc/dns_records/export");
    let patch = PatchDnsRecord {
        zone_identifier: "z1",
        identifier: "r1",
        params: PatchDnsRecordParams::default(),
    };
    assert_eq!(patch.method(), Method::Patch);
    assert_eq!(patch.path(), "zones/z1/dns_records/r1");
    let list = ListDnsRecords { zone_identifier: "z1", params: ListDnsRecordsParams::default() };
    assert_eq!(list.method(), Method::Get);
    assert_eq!(list.path(), "zones/z1/dns_records");
    assert_eq!(list.query(), None);
    assert_eq!(Method::Patch.as_str(), "PATCH");
}

#[test]
fn list_query_sends_record_type_and_paging() {
    let params = ListDnsRecordsParams {
        record_type: Some(DnsContent::MX {
            content: "mail example.com".into(),
            priority: 5,
        }),
        type_filter: Some("MX".into()),
        name: Some(ListDnsRecordsParamsName {
            starts_with: Some("w&w".into()),
            ..Default::default()
        }),
        page: Some(2),
        per_page: Some(50),
        order: Some(ListDnsRecordsOrder::Ttl),
        direction: Some(OrderDirection::Descending),
        search_match: Some(SearchMatch::Any),
        ..Default::default()
    };
    assert_eq!(
        params.query().unwrap(),
        "type=MX&content=mail+example.com&priority=5&type=MX&name.startswith=w%26w&page=2&per_page=50&order=ttl&direction=desc&match=any"
    );
}

#[test]
fn record_type_and_content_of_each_variant() {
    let a = DnsContent::A { content: Ipv4Address { octets: [192, 0, 2, 1] } };
    assert_eq!(a.record_type(), "A");
    assert_eq!(a.content(), "192.0.2.1");
    let aaaa = DnsContent::AAAA { content: Ipv6Address { segments: [0x2001, 0xdb8, 0, 0, 0, 0, 0, 1] } };
    assert_eq!(aaaa.record_type(), "AAAA");
    assert_eq!(aaaa.content(), "2001:db8::1");
    let other = DnsContent::Other { record_type: "HTTPS".into(), content: "1 . alpn=\"h2\"".into() };
    assert_eq!(other.record_type(), "HTTPS");
    assert_eq!(other.content(), "1 . alpn=\"h2\"");
    let mx = DnsContent::MX { content: "mx.example.com".into(), priority: 10 };
    assert_eq!(mx.record_type(), "MX");
    assert_eq!(mx.content(), "mx.example.com");
    assert_eq!(DnsContent::CAA { content: "0 issue \"letsencrypt.org\"".into() }.record_type(), "CAA");
    assert_eq!(DnsContent::CNAME { content: "x".into() }.record_type(), "CNAME");
    assert_eq!(DnsContent::NS { content: "x".into() }.record_type(), "NS");
    assert_eq!(DnsContent::PTR { content: "x".into() }.record_type(), "PTR");
    assert_eq!(DnsContent::TXT { content: "x".into() }.record_type(), "TXT");
    assert_eq!(DnsContent::SRV { content: "x".into() }.record_type(), "SRV");
}

#[test]
fn ipv4_text_has_no_leading_zeros() {
    assert_eq!(Ipv4Address { octets: [0, 0, 0, 0] }.to_text(), "0.0.0.0");
    assert_eq!(Ipv4Address { octets: [255, 10, 7, 100] }.to_text(), "255.10.7.100");
}

#[test]
fn ipv6_text_compresses_first_longest_zero_run() {
    assert_eq!(v6([0; 8]), "::");
    assert_eq!(v6([0, 0, 0, 0, 0, 0, 0, 1]), "::1");
    assert_eq!(v6([1, 0, 0, 0, 0, 0, 0, 0]), "1::");
    assert_eq!(v6([1, 0, 1, 0, 1, 0, 1, 0]), "1:0:1:0:1:0:1:0");
    assert_eq!(v6([1, 0, 0, 2, 0, 0, 3, 4]), "1::2:0:0:3:4");
    assert_eq!(v6([1, 0, 0, 2, 0, 0, 0, 4]), "1:0:0:2::4");
    assert_eq!(v6([0xfe80, 0, 0, 0, 0x1ff, 0xfe23, 0x4567, 0x890a]), "fe80::1ff:fe23:4567:890a");
    assert_eq!(v6([0, 0, 0, 0, 0, 0xffff, 0xc000, 0x0280]), "::ffff:192.0.2.128");
    assert_eq!(v6([0, 0, 0, 0, 0, 0, 0xc000, 0x0280]), "::c000:280");
    assert_eq!(v6([0xffff; 8]), "ffff:ffff:ffff:ffff:ffff:ffff:ffff:ffff");
}

#[test]
fn filters_with_nothing_set_send_no_query() {
    let params = ListDnsRecordsParams {
        name: Some(ListDnsRecordsParamsName::default()),
        content: Some(ListDnsRecordsParamsContent::default()),
        ..Default::default()
    };
    assert_eq!(params.query(), None);
    let paged = ListDnsRecordsParams { per_page: Some(1), ..Default::default() };
    assert_eq!(paged.query().unwrap(), "per_page=1");
}

#[test]
fn query_values_are_form_encoded_byte_by_byte() {
    let params = ListDnsRecordsParams {
        name: Some(ListDnsRecordsParamsName {
            contains: Some("é/ü ~*-._".into()),
            ..Default::default()
        }),
        ..Default::default()
    };
    assert_eq!(params.query().unwrap(), "name.contains=%C3%A9%2F%C3%BC+%7E*-._");
}

#[test]
fn json_strings_escape_control_characters() {
    let params = PatchDnsRecordParams {
        comment: Some("a\u{1}b\u{1f}\t\\/\u{7f}é"),
        ..Default::default()
    };
    assert_eq!(params.to_json(), "{\"comment\":\"a\\u0001b\\u001f\\t\\\\/\u{7f}é\"}");
}
