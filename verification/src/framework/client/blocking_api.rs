//! The decisions of the blocking client: what a request carries, and what a
//! response becomes.

use vstd::prelude::*;
use crate::framework::auth::{Credentials, credential_headers, headers_view};
use crate::framework::endpoint::{Method, RequestBody, content_type_multipart, opt_string_view};
use crate::framework::response::api_fail::{ApiErrors, ApiFailure};
use crate::text::{push_str, str_equal};

verus! {

/// A request ready to send: method, URL, body and headers in order.
#[derive(Debug)]
pub struct PreparedRequest {
    pub method: Method,
    pub url: String,
    pub body: Option<RequestBody>,
    pub headers: Vec<(String, String)>,
}

/// The `content-type` header that a request carries: the endpoint's content
/// type, where it has a body and a content type, except
/// `multipart/form-data`, which the HTTP client sets itself with the form's
/// boundary.
pub open spec fn content_type_headers(body: Option<RequestBody>, content_type: Option<Seq<char>>) -> Seq<
    (Seq<char>, Seq<char>),
> {
    match (body, content_type) {
        (Some(_), Some(t)) => if t == content_type_multipart() {
            seq![]
        } else {
            seq![("content-type"@, t)]
        },
        _ => seq![],
    }
}

/// The headers of a request: its content type, then the credentials.
pub open spec fn request_headers(body: Option<RequestBody>, content_type: Option<Seq<char>>, c: Credentials) -> Seq<
    (Seq<char>, Seq<char>),
> {
    content_type_headers(body, content_type) + credential_headers(c)
}

impl PreparedRequest {
    /// A request to `url` with the endpoint's method and body, the endpoint's
    /// content type as a header where it applies, and the headers of the
    /// credentials.
    pub fn new(
        method: Method,
        url: String,
        body: Option<RequestBody>,
        content_type: Option<String>,
        credentials: &Credentials,
    ) -> (r: Self)
        ensures
            r.method == method,
            r.url@ == url@,
            r.body == body,
            headers_view(r.headers@) == request_headers(body, opt_string_view(content_type), *credentials),
    {
        let mut headers: Vec<(String, String)> = Vec::new();
        let ghost ct = opt_string_view(content_type);
        if body.is_some() {
            match content_type {
                Some(t) => {
                    proof {
                        reveal_strlit("multipart/form-data");
                        assert(content_type_multipart() =~= "multipart/form-data"@);
                    }
                    if !str_equal(t.as_str(), "multipart/form-data") {
                        let mut name = String::new();
                        push_str(&mut name, "content-type");
                        headers.push((name, t));
                    }
                },
                None => {},
            }
        }
        let ghost before = headers@;
        assert(headers_view(before) =~= content_type_headers(body, ct));
        let auth = credentials.headers();
        let mut i: usize = 0;
        while i < auth.len()
            invariant
                0 <= i <= auth@.len(),
                headers_view(auth@) == credential_headers(*credentials),
                headers@ =~= before + auth@.subrange(0, i as int),
            decreases auth@.len() - i,
        {
            headers.push((auth[i].0.clone(), auth[i].1.clone()));
            i = i + 1;
        }
        assert(auth@.subrange(0, auth@.len() as int) =~= auth@);
        assert(headers_view(headers@) =~= request_headers(body, ct, *credentials));
        PreparedRequest { method, url, body, headers }
    }
}

/// Whether a status code is a success (2xx).
pub fn is_success(status: u16) -> (r: bool)
    ensures
        r == (200 <= status < 300),
{
    200 <= status && status < 300
}

impl ApiFailure {
    /// The failure for a response with a non-success status: its errors as
    /// parsed, or no error at all when they did not parse.
    pub fn from_error_response(status: u16, parsed: Option<ApiErrors>) -> (r: ApiFailure)
        ensures
            match parsed {
                Some(e) => r == ApiFailure::Error(status, e),
                None => r matches ApiFailure::Error(s, e) && s == status && e.other@.len() == 0
                    && e.errors@.len() == 0,
            },
    {
        match parsed {
            Some(e) => ApiFailure::Error(status, e),
            None => ApiFailure::Error(status, ApiErrors::empty()),
        }
    }
}

} // verus!
