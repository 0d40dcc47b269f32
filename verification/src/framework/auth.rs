//! Credentials and the headers that carry them.

use vstd::prelude::*;
use crate::text::push_str;

verus! {

/// How requests authenticate.
#[derive(Debug)]
pub enum Credentials {
    UserAuthKey { email: String, key: String },
    UserAuthToken { token: String },
    Service { key: String },
}

/// The headers of the credentials, as (name, value) texts: `X-Auth-Email` and
/// `X-Auth-Key` for a user key, `Authorization: Bearer {token}` for a token,
/// `X-Auth-User-Service-Key` for a service key.
pub open spec fn credential_headers(c: Credentials) -> Seq<(Seq<char>, Seq<char>)> {
    match c {
        Credentials::UserAuthKey { email, key } => seq![
            ("X-Auth-Email"@, email@),
            ("X-Auth-Key"@, key@),
        ],
        Credentials::UserAuthToken { token } => seq![("Authorization"@, "Bearer "@ + token@)],
        Credentials::Service { key } => seq![("X-Auth-User-Service-Key"@, key@)],
    }
}

/// The texts of a list of headers.
pub open spec fn headers_view(h: Seq<(String, String)>) -> Seq<(Seq<char>, Seq<char>)> {
    h.map_values(|p: (String, String)| (p.0@, p.1@))
}

fn owned(s: &str) -> (r: String)
    ensures
        r@ == s@,
{
    let mut r = String::new();
    push_str(&mut r, s);
    r
}

impl Credentials {
    /// The headers that authenticate a request, in the order they are sent.
    pub fn headers(&self) -> (r: Vec<(String, String)>)
        ensures
            headers_view(r@) == credential_headers(*self),
    {
        let mut r: Vec<(String, String)> = Vec::new();
        match self {
            Credentials::UserAuthKey { email, key } => {
                r.push((owned("X-Auth-Email"), email.clone()));
                r.push((owned("X-Auth-Key"), key.clone()));
            },
            Credentials::UserAuthToken { token } => {
                let mut v = owned("Bearer ");
                push_str(&mut v, token.as_str());
                r.push((owned("Authorization"), v));
            },
            Credentials::Service { key } => {
                r.push((owned("X-Auth-User-Service-Key"), key.clone()));
            },
        }
        assert(headers_view(r@) =~= credential_headers(*self));
        r
    }
}

/// The headers each kind of credentials sends: a user key as `X-Auth-Email`
/// and `X-Auth-Key`, a token as `Authorization: Bearer {token}`, a service
/// key as `X-Auth-User-Service-Key`, each with the credential's own text.
pub proof fn lemma_credential_headers(c: Credentials)
    ensures
        c matches Credentials::UserAuthKey { email, key } ==> credential_headers(c) == seq![
            (seq!['X', '-', 'A', 'u', 't', 'h', '-', 'E', 'm', 'a', 'i', 'l'], email@),
            (seq!['X', '-', 'A', 'u', 't', 'h', '-', 'K', 'e', 'y'], key@),
        ],
        c matches Credentials::UserAuthToken { token } ==> credential_headers(c) == seq![
            (
                seq!['A', 'u', 't', 'h', 'o', 'r', 'i', 'z', 'a', 't', 'i', 'o', 'n'],
                seq!['B', 'e', 'a', 'r', 'e', 'r', ' '] + token@,
            ),
        ],
        c matches Credentials::Service { key } ==> credential_headers(c) == seq![
            (
                seq![
                    'X', '-', 'A', 'u', 't', 'h', '-', 'U', 's', 'e', 'r', '-', 'S', 'e', 'r', 'v',
                    'i', 'c', 'e', '-', 'K', 'e', 'y',
                ],
                key@,
            ),
        ],
{
    reveal_strlit("X-Auth-Email");
    reveal_strlit("X-Auth-Key");
    reveal_strlit("Authorization");
    reveal_strlit("Bearer ");
    reveal_strlit("X-Auth-User-Service-Key");
    assert("X-Auth-Email"@ =~= seq!['X', '-', 'A', 'u', 't', 'h', '-', 'E', 'm', 'a', 'i', 'l']);
    assert("X-Auth-Key"@ =~= seq!['X', '-', 'A', 'u', 't', 'h', '-', 'K', 'e', 'y']);
    assert("Authorization"@ =~= seq!['A', 'u', 't', 'h', 'o', 'r', 'i', 'z', 'a', 't', 'i', 'o', 'n']);
    assert("Bearer "@ =~= seq!['B', 'e', 'a', 'r', 'e', 'r', ' ']);
    assert("X-Auth-User-Service-Key"@ =~= seq![
        'X', '-', 'A', 'u', 't', 'h', '-', 'U', 's', 'e', 'r', '-', 'S', 'e', 'r', 'v', 'i', 'c', 'e',
        '-', 'K', 'e', 'y',
    ]);
}

} // verus!
