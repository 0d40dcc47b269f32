//! Purging a zone's cache.

use vstd::prelude::*;
use crate::framework::endpoint::{JsonObjectWriter, Method, RequestBody, object_text, string_list_text};
use crate::framework::json::bool_text;
use crate::text::push_str;

verus! {

/// Purge cached content for a zone, either everything or selectively.
/// <https://developers.cloudflare.com/api/resources/cache/methods/purge/>
#[derive(Debug)]
pub struct PurgeCache<'a> {
    pub zone_identifier: &'a str,
    pub params: PurgeCacheParams,
}

/// What to purge. Tags, hosts and prefixes are not available on every plan.
#[derive(Debug)]
pub enum PurgeCacheParams {
    Everything { purge_everything: bool },
    Selective {
        /// Exact URLs to purge
        files: Vec<String>,
        /// Cache tags to purge
        tags: Vec<String>,
        /// Hostnames to purge
        hosts: Vec<String>,
        /// Host/path prefixes to purge
        prefixes: Vec<String>,
    },
}

/// One member for a list of strings: none when the list is empty.
pub open spec fn nonempty_list_member(key: Seq<char>, xs: Seq<String>) -> Seq<(Seq<char>, Seq<char>)> {
    if xs.len() == 0 {
        seq![]
    } else {
        seq![(key, string_list_text(xs))]
    }
}

/// JSON members of the purge parameters: `purge_everything` alone, or the
/// lists that are not empty, in the order files, tags, hosts, prefixes.
pub open spec fn purge_members(p: PurgeCacheParams) -> Seq<(Seq<char>, Seq<char>)> {
    match p {
        PurgeCacheParams::Everything { purge_everything } => seq![
            ("purge_everything"@, bool_text(purge_everything)),
        ],
        PurgeCacheParams::Selective { files, tags, hosts, prefixes } => nonempty_list_member(
            "files"@,
            files@,
        ) + nonempty_list_member("tags"@, tags@) + nonempty_list_member("hosts"@, hosts@)
            + nonempty_list_member("prefixes"@, prefixes@),
    }
}

/// A selective purge sends a list exactly when it is not empty: one member per
/// non-empty list, each an array of that list's entries.
pub proof fn lemma_selective_sends_nonempty_lists(p: PurgeCacheParams)
    requires
        p is Selective,
    ensures
        ({
            let m = purge_members(p);
            let files = p->files@;
            let tags = p->tags@;
            let hosts = p->hosts@;
            let prefixes = p->prefixes@;
            &&& m.len() == (if files.len() > 0 { 1int } else { 0 }) + (if tags.len() > 0 { 1int } else { 0 })
                + (if hosts.len() > 0 { 1int } else { 0 }) + (if prefixes.len() > 0 { 1int } else { 0 })
            &&& forall|i: int| 0 <= i < m.len() ==> {
                ||| m[i] == ("files"@, string_list_text(files)) && files.len() > 0
                ||| m[i] == ("tags"@, string_list_text(tags)) && tags.len() > 0
                ||| m[i] == ("hosts"@, string_list_text(hosts)) && hosts.len() > 0
                ||| m[i] == ("prefixes"@, string_list_text(prefixes)) && prefixes.len() > 0
            }
            &&& files.len() > 0 ==> exists|i: int| 0 <= i < m.len() && m[i] == ("files"@, string_list_text(files))
            &&& tags.len() > 0 ==> exists|i: int| 0 <= i < m.len() && m[i] == ("tags"@, string_list_text(tags))
            &&& hosts.len() > 0 ==> exists|i: int| 0 <= i < m.len() && m[i] == ("hosts"@, string_list_text(hosts))
            &&& prefixes.len() > 0 ==> exists|i: int| 0 <= i < m.len() && m[i] == ("prefixes"@, string_list_text(prefixes))
        }),
{
    let m = purge_members(p);
    let a = nonempty_list_member("files"@, p->files@);
    let b = nonempty_list_member("tags"@, p->tags@);
    let c = nonempty_list_member("hosts"@, p->hosts@);
    let d = nonempty_list_member("prefixes"@, p->prefixes@);
    assert(m == a + b + c + d);
    if p->files@.len() > 0 {
        assert(m[0] == a[0]);
    }
    if p->tags@.len() > 0 {
        assert(m[a.len() as int] == b[0]);
    }
    if p->hosts@.len() > 0 {
        assert(m[(a.len() + b.len()) as int] == c[0]);
    }
    if p->prefixes@.len() > 0 {
        assert(m[(a.len() + b.len() + c.len()) as int] == d[0]);
    }
}

/// `zones/{zone}/purge_cache`.
pub open spec fn purge_path(zone: Seq<char>) -> Seq<char> {
    "zones/"@ + zone + "/purge_cache"@
}

fn write_nonempty_list(w: &mut JsonObjectWriter, key: &str, xs: &Vec<String>)
    requires
        old(w).wf(),
    ensures
        final(w).wf(),
        final(w).members() == old(w).members() + nonempty_list_member(key@, xs@),
{
    if xs.len() > 0 {
        w.string_list(key, xs.as_slice());
    }
    assert(final(w).members() =~= old(w).members() + nonempty_list_member(key@, xs@));
}

impl PurgeCacheParams {
    /// Purge everything.
    pub fn everything() -> (r: Self)
        ensures
            r == (PurgeCacheParams::Everything { purge_everything: true }),
    {
        PurgeCacheParams::Everything { purge_everything: true }
    }

    /// The JSON text of the parameters; in a selective purge, empty lists are
    /// left out.
    pub fn to_json(&self) -> (r: String)
        ensures
            r@ == object_text(purge_members(*self)),
    {
        let mut w = JsonObjectWriter::new();
        match self {
            PurgeCacheParams::Everything { purge_everything } => {
                w.boolean("purge_everything", *purge_everything);
            },
            PurgeCacheParams::Selective { files, tags, hosts, prefixes } => {
                write_nonempty_list(&mut w, "files", files);
                write_nonempty_list(&mut w, "tags", tags);
                write_nonempty_list(&mut w, "hosts", hosts);
                write_nonempty_list(&mut w, "prefixes", prefixes);
            },
        }
        assert(w.members() =~= purge_members(*self));
        w.finish()
    }
}

impl<'a> PurgeCache<'a> {
    pub fn method(&self) -> (r: Method)
        ensures
            r == Method::Post,
    {
        Method::Post
    }

    pub fn path(&self) -> (r: String)
        ensures
            r@ == purge_path(self.zone_identifier@),
    {
        let mut p = String::new();
        push_str(&mut p, "zones/");
        push_str(&mut p, self.zone_identifier);
        push_str(&mut p, "/purge_cache");
        assert(p@ =~= purge_path(self.zone_identifier@));
        p
    }

    /// The parameters as a JSON body.
    pub fn body(&self) -> (r: Option<RequestBody>)
        ensures
            r matches Some(RequestBody::Json(t)) && t@ == object_text(purge_members(self.params)),
    {
        Some(RequestBody::Json(self.params.to_json()))
    }
}

#[derive(Debug)]
pub struct PurgeCacheResponse {
    /// Identifier of the purge request
    pub id: String,
}

/// The purge endpoint posts to `zones/{zone}/purge_cache`, and a purge of
/// everything sends just `purge_everything` with its flag.
pub proof fn lemma_purge_path_and_everything(zone: Seq<char>, flag: bool)
    ensures
        purge_path(zone) == seq!['z', 'o', 'n', 'e', 's', '/'] + zone + seq![
            '/', 'p', 'u', 'r', 'g', 'e', '_', 'c', 'a', 'c', 'h', 'e',
        ],
        purge_members(PurgeCacheParams::Everything { purge_everything: flag }) == seq![
            (seq!['p', 'u', 'r', 'g', 'e', '_', 'e', 'v', 'e', 'r', 'y', 't', 'h', 'i', 'n', 'g'], bool_text(flag)),
        ],
{
    reveal_strlit("zones/");
    reveal_strlit("/purge_cache");
    reveal_strlit("purge_everything");
    assert(purge_path(zone) =~= seq!['z', 'o', 'n', 'e', 's', '/'] + zone + seq![
        '/', 'p', 'u', 'r', 'g', 'e', '_', 'c', 'a', 'c', 'h', 'e',
    ]);
    assert("purge_everything"@ =~= seq!['p', 'u', 'r', 'g', 'e', '_', 'e', 'v', 'e', 'r', 'y', 't', 'h', 'i', 'n', 'g']);
}

} // verus!
