//! Shared request and response framework.

pub mod auth;
pub mod client;
pub mod endpoint;
pub mod response;
pub mod json;

use vstd::prelude::*;
use crate::framework::endpoint::{opt_str_view, opt_string_view};

verus! {

/// Sort direction of a listing.
#[derive(Clone, Copy, Debug, PartialEq, Eq, Structural)]
pub enum OrderDirection {
    Ascending,
    Descending,
}

/// Whether a search must meet all of its requirements or any one of them.
#[derive(Clone, Copy, Debug, PartialEq, Eq, Structural)]
pub enum SearchMatch {
    All,
    Any,
}

/// Wire name of a direction: `asc` or `desc`.
pub open spec fn direction_name(d: OrderDirection) -> Seq<char> {
    match d {
        OrderDirection::Ascending => "asc"@,
        OrderDirection::Descending => "desc"@,
    }
}

/// Wire name of a search match: `all` or `any`.
pub open spec fn search_match_name(m: SearchMatch) -> Seq<char> {
    match m {
        SearchMatch::All => "all"@,
        SearchMatch::Any => "any"@,
    }
}

impl OrderDirection {
    /// The wire name, `asc` or `desc`.
    pub fn as_str(&self) -> (r: &'static str)
        ensures
            r@ == direction_name(*self),
    {
        match self {
            OrderDirection::Ascending => "asc",
            OrderDirection::Descending => "desc",
        }
    }
}

impl SearchMatch {
    /// The wire name, `all` or `any`.
    pub fn as_str(&self) -> (r: &'static str)
        ensures
            r@ == search_match_name(*self),
    {
        match self {
            SearchMatch::All => "all",
            SearchMatch::Any => "any",
        }
    }
}

/// Which API the client talks to.
#[derive(Debug)]
pub enum Environment {
    /// `https://api.cloudflare.com/client/v4/`
    Production,
    /// Another base URL, such as a test server.
    Custom(String),
}

/// The base URL of an environment.
pub open spec fn base_url(e: Environment) -> Seq<char> {
    match e {
        Environment::Production => "https://api.cloudflare.com/client/v4/"@,
        Environment::Custom(u) => u@,
    }
}

/// What the url crate makes of a base URL, a path joined onto it and a query
/// set on the result (`Url::parse`, `Url::join`, `Url::set_query`), as text;
/// none when the base or the join does not parse.
pub uninterp spec fn joined_url(base: Seq<char>, path: Seq<char>, query: Option<Seq<char>>) -> Option<Seq<char>>;

/// Parses `base`, joins `path` onto it and sets `query`, with the url crate
/// (`Url::parse`, `Url::join`, `Url::set_query`, then the URL's text). The
/// contract names the result `joined_url(..)` of the three arguments and
/// states no more: URL parsing and resolution are the url crate's.
#[verifier::external_body]
fn join_url(base: &str, path: &str, query: Option<&str>) -> (r: Option<String>)
    ensures
        opt_string_view(r) == joined_url(base@, path@, opt_str_view(query)),
{
    let mut url = url::Url::parse(base).ok()?.join(path).ok()?;
    url.set_query(query);
    Some(url.to_string())
}

/// The host that the url crate finds in a URL (`Url::parse`, then
/// `host_str`), as text; none when the URL does not parse or has no host.
pub uninterp spec fn url_host(url: Seq<char>) -> Option<Seq<char>>;

/// The host of a URL, by the url crate (`Url::parse`, then `host_str`). The
/// contract names the result `url_host(..)` of the URL and states no more:
/// URL parsing is the url crate's.
#[verifier::external_body]
fn host_of(url: &str) -> (r: Option<String>)
    ensures
        opt_string_view(r) == url_host(url@),
{
    url::Url::parse(url).ok()?.host_str().map(|h| h.to_string())
}

impl Environment {
    /// The host of the base URL, where it parses and has one.
    pub fn host(&self) -> (r: Option<String>)
        ensures
            opt_string_view(r) == url_host(base_url(*self)),
    {
        host_of(self.base_url())
    }

    /// The base URL.
    pub fn base_url(&self) -> (r: &str)
        ensures
            r@ == base_url(*self),
    {
        match self {
            Environment::Production => "https://api.cloudflare.com/client/v4/",
            Environment::Custom(u) => u.as_str(),
        }
    }

    /// Whether the environment is a custom one.
    pub fn is_custom(&self) -> (r: bool)
        ensures
            r == (*self is Custom),
    {
        match self {
            Environment::Custom(_) => true,
            Environment::Production => false,
        }
    }

    /// The URL of an endpoint: its path joined onto the base URL, with its
    /// query; none when the URL does not parse.
    pub fn endpoint_url(&self, path: &str, query: Option<&str>) -> (r: Option<String>)
        ensures
            opt_string_view(r) == joined_url(base_url(*self), path@, opt_str_view(query)),
    {
        join_url(self.base_url(), path, query)
    }
}

} // verus!
