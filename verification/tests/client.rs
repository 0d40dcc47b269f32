use cloudflare::framework::auth::Credentials;
use cloudflare::framework::client::blocking_api::{is_success, PreparedRequest};
use cloudflare::framework::endpoint::{Method, MultipartPart, RequestBody};
use cloudflare::framework::response::api_fail::{ApiErrors, ApiFailure};
use cloudflare::framework::Environment;

#[test]
fn token_credentials_send_bearer_header() {
    let c = Credentials::UserAuthToken { token: "token".into() };
    assert_eq!(c.headers(), vec![("Authorization".to_string(), "Bearer token".to_string())]);
    let k = Credentials::UserAuthKey { email: "a@b.c".into(), key: "k".into() };
    assert_eq!(
        k.headers(),
        vec![
            ("X-Auth-Email".to_string(), "a@b.c".to_string()),
            ("X-Auth-Key".to_string(), "k".to_string())
        ]
    );
    let s = Credentials::Service { key: "s".into() };
    assert_eq!(s.headers(), vec![("X-Auth-User-Service-Key".to_string(), "s".to_string())]);
}

#[test]
fn prepared_request_headers() {
    let c = Credentials::UserAuthToken { token: "t".into() };
    let json = RequestBody::Json("{}".into());
    let ct = Some(json.content_type());
    let r = PreparedRequest::new(Method::Post, "u".into(), Some(json), ct, &c);
    assert_eq!(r.method, Method::Post);
    assert_eq!(r.url, "u");
    assert_eq!(
        r.headers,
        vec![
            ("content-type".to_string(), "application/json".to_string()),
            ("Authorization".to_string(), "Bearer t".to_string())
        ]
    );
    let raw = RequestBody::Raw(vec![1]);
    let ct = Some(raw.content_type());
    let raw = PreparedRequest::new(Method::Put, "u".into(), Some(raw), ct, &c);
    assert_eq!(raw.headers[0].1, "application/octet-stream");
    let form = RequestBody::MultiPart(vec![("f".into(), MultipartPart::Text("x".into()))]);
    assert_eq!(form.content_type(), "multipart/form-data");
    let ct = Some(form.content_type());
    let multi = PreparedRequest::new(Method::Put, "u".into(), Some(form), ct, &c);
    assert_eq!(multi.headers.len(), 1);
    let none = PreparedRequest::new(Method::Get, "u".into(), None, None, &c);
    assert_eq!(none.headers.len(), 1);
}

#[test]
fn endpoint_content_type_is_sent_with_a_body_only() {
    let c = Credentials::Service { key: "s".into() };
    let own = PreparedRequest::new(
        Method::Post,
        "u".into(),
        Some(RequestBody::Raw(b"x".to_vec())),
        Some("text/plain".into()),
        &c,
    );
    assert_eq!(own.headers[0], ("content-type".to_string(), "text/plain".to_string()));
    assert_eq!(own.headers.len(), 2);
    let no_body = PreparedRequest::new(Method::Get, "u".into(), None, Some("text/plain".into()), &c);
    assert_eq!(no_body.headers, vec![("X-Auth-User-Service-Key".to_string(), "s".to_string())]);
    let no_type = PreparedRequest::new(Method::Post, "u".into(), Some(RequestBody::Json("{}".into())), None, &c);
    assert_eq!(no_type.headers.len(), 1);
}

#[test]
fn endpoint_urls() {
    let prod = Environment::Production;
    assert!(!prod.is_custom());
    assert_eq!(
        prod.endpoint_url("zones/abc/dns_records", Some("type=MX&page=2")).unwrap(),
        "https://api.cloudflare.com/client/v4/zones/abc/dns_records?type=MX&page=2"
    );
    let custom = Environment::Custom("http://127.0.0.1:1234/".into());
    assert!(custom.is_custom());
    assert_eq!(
        custom.endpoint_url("zones/abc/dns_records/export", None).unwrap(),
        "http://127.0.0.1:1234/zones/abc/dns_records/export"
    );
    assert_eq!(Environment::Custom("not a url".into()).endpoint_url("x", None), None);
}

#[test]
fn environment_hosts() {
    assert_eq!(Environment::Production.host().as_deref(), Some("api.cloudflare.com"));
    assert_eq!(
        Environment::Custom("http://127.0.0.1:1234/".into()).host().as_deref(),
        Some("127.0.0.1")
    );
    assert_eq!(Environment::Custom("not a url".into()).host(), None);
    assert_eq!(Environment::Custom("data:text/plain,x".into()).host(), None);
}

#[test]
fn success_statuses_and_error_responses() {
    assert!(is_success(200));
    assert!(is_success(299));
    assert!(!is_success(300));
    assert!(!is_success(199));
    let f = ApiFailure::from_error_response(404, None);
    assert_eq!(f.to_string(), "HTTP 404 Not Found");
    let g = ApiFailure::from_error_response(404, Some(ApiErrors::empty()));
    assert_eq!(f, g);
}
