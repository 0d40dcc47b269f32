//! What the DNS record endpoints send and how records decode, stated over
//! the parameters a caller sets.

use vstd::prelude::*;
use crate::ip_parse::{parse_v4, parse_v6};
use crate::net::{ipv4_text, ipv6_text};
use crate::endpoints::dns::dns::{
    RecordContent, RecordFields, decodes_to, export_path, record_path, records_path, lemma_type_names_differ, tagged_content,
    CreateDnsRecordParams, DnsContent, ListDnsRecordsOrder, ListDnsRecordsParams, PatchDnsRecordParams,
    UpdateDnsRecordParams, content_text, create_members, list_pairs, order_name, patch_members,
    content_filter_pairs, content_pairs, content_priority, list_filter_pairs, list_paging_pairs,
    name_pairs, opt_decimal, opt_direction_name, opt_order_name, opt_search_match_name,
    record_type_name, update_members,
};
use crate::framework::{OrderDirection, SearchMatch, direction_name, search_match_name};
use crate::endpoints::dns::dns::content_members;
use crate::framework::endpoint::{
    opt_bool_member, opt_nat_u32, opt_number_member, opt_str_view, opt_string_list_member,
    opt_pair_of, opt_string_member, opt_string_view, opt_strings_view, string_list_text,
};
use crate::framework::json::{bool_text, json_string_text};
use crate::text::decimal_text;

verus! {

/// Some member (or pair) has the key `k`.
pub open spec fn has_key(m: Seq<(Seq<char>, Seq<char>)>, k: Seq<char>) -> bool {
    exists|i: int| 0 <= i < m.len() && #[trigger] m[i].0 == k
}

/// The keys of the request bodies, told apart by length and first letters.
proof fn lemma_body_keys_differ()
    ensures
        "ttl"@ =~= seq!['t', 't', 'l'],
        "priority"@ =~= seq!['p', 'r', 'i', 'o', 'r', 'i', 't', 'y'],
        "proxied"@ =~= seq!['p', 'r', 'o', 'x', 'i', 'e', 'd'],
        "name"@ =~= seq!['n', 'a', 'm', 'e'],
        "type"@ =~= seq!['t', 'y', 'p', 'e'],
        "content"@ =~= seq!['c', 'o', 'n', 't', 'e', 'n', 't'],
        "comment"@ =~= seq!['c', 'o', 'm', 'm', 'e', 'n', 't'],
        "tags"@ =~= seq!['t', 'a', 'g', 's'],
{
    reveal_strlit("ttl");
    reveal_strlit("priority");
    reveal_strlit("proxied");
    reveal_strlit("name");
    reveal_strlit("type");
    reveal_strlit("content");
    reveal_strlit("comment");
    reveal_strlit("tags");
}

/// The body of a creation carries every field the caller set, each with its
/// value: `ttl` and `priority` as decimal numbers, `proxied` as `true` or
/// `false`, `name` as a JSON string, and the record's `type` and `content`.
#[verifier::spinoff_prover]
pub proof fn lemma_create_body_carries_set_fields(p: CreateDnsRecordParams)
    ensures
        p.ttl matches Some(n) ==> create_members(p).contains(("ttl"@, decimal_text(n as nat))),
        p.priority matches Some(n) ==> create_members(p).contains(("priority"@, decimal_text(n as nat))),
        p.proxied matches Some(b) ==> create_members(p).contains(("proxied"@, bool_text(b))),
        create_members(p).contains(("name"@, json_string_text(p.name@))),
        create_members(p).contains(("type"@, json_string_text(record_type_name(p.content)))),
        create_members(p).contains(("content"@, json_string_text(content_text(p.content)))),
{
    let m = create_members(p);
    let t = if p.ttl is Some { 1int } else { 0 };
    let r = if p.priority is Some { 1int } else { 0 };
    let x = if p.proxied is Some { 1int } else { 0 };
    if let Some(n) = p.ttl {
        assert(m[0] == ("ttl"@, decimal_text(n as nat)));
    }
    if let Some(n) = p.priority {
        assert(m[t] == ("priority"@, decimal_text(n as nat)));
    }
    if let Some(b) = p.proxied {
        assert(m[t + r] == ("proxied"@, bool_text(b)));
    }
    assert(m[t + r + x] == ("name"@, json_string_text(p.name@)));
    assert(m[t + r + x + 1] == ("type"@, json_string_text(record_type_name(p.content))));
    assert(m[t + r + x + 2] == ("content"@, json_string_text(content_text(p.content))));
}

/// The body of a creation has no `ttl` or `proxied` key when that field is
/// left unset.
#[verifier::spinoff_prover]
pub proof fn lemma_create_body_omits_unset_fields(p: CreateDnsRecordParams)
    ensures
        p.ttl is None ==> !has_key(create_members(p), "ttl"@),
        p.proxied is None ==> !has_key(create_members(p), "proxied"@),
{
    lemma_body_keys_differ();
    let m = create_members(p);
    assert forall|i: int| 0 <= i < m.len() implies (#[trigger] m[i].0 == "ttl"@ ==> p.ttl is Some) && (m[i].0
        == "proxied"@ ==> p.proxied is Some) by {}
}

/// The body of an update carries every field the caller set, each with its
/// value: `ttl` as a decimal number, `proxied` as `true` or `false`, `name`
/// and `comment` as JSON strings, `tags` as a JSON array of strings, and the
/// record's `type` and `content`.
#[verifier::spinoff_prover]
pub proof fn lemma_update_body_carries_set_fields(p: UpdateDnsRecordParams)
    ensures
        p.ttl matches Some(n) ==> update_members(p).contains(("ttl"@, decimal_text(n as nat))),
        p.proxied matches Some(b) ==> update_members(p).contains(("proxied"@, bool_text(b))),
        update_members(p).contains(("name"@, json_string_text(p.name@))),
        update_members(p).contains(("type"@, json_string_text(record_type_name(p.content)))),
        update_members(p).contains(("content"@, json_string_text(content_text(p.content)))),
        p.comment matches Some(c) ==> update_members(p).contains(("comment"@, json_string_text(c@))),
        p.tags matches Some(ts) ==> update_members(p).contains(("tags"@, string_list_text(ts@))),
{
    let m = update_members(p);
    let t = if p.ttl is Some { 1int } else { 0 };
    let x = if p.proxied is Some { 1int } else { 0 };
    let c = if p.content is MX { 3int } else { 2 };
    let k = if p.comment is Some { 1int } else { 0 };
    if let Some(n) = p.ttl {
        assert(m[0] == ("ttl"@, decimal_text(n as nat)));
    }
    if let Some(b) = p.proxied {
        assert(m[t] == ("proxied"@, bool_text(b)));
    }
    assert(m[t + x] == ("name"@, json_string_text(p.name@)));
    assert(m[t + x + 1] == ("type"@, json_string_text(record_type_name(p.content))));
    assert(m[t + x + 2] == ("content"@, json_string_text(content_text(p.content))));
    if let Some(s) = p.comment {
        assert(m[t + x + 1 + c] == ("comment"@, json_string_text(s@)));
    }
    if let Some(ts) = p.tags {
        assert(m[t + x + 1 + c + k] == ("tags"@, string_list_text(ts@)));
    }
}

/// The body of an update has no key for an optional field left unset.
#[verifier::spinoff_prover]
pub proof fn lemma_update_body_omits_unset_fields(p: UpdateDnsRecordParams)
    ensures
        p.ttl is None ==> !has_key(update_members(p), "ttl"@),
        p.proxied is None ==> !has_key(update_members(p), "proxied"@),
        p.comment is None ==> !has_key(update_members(p), "comment"@),
        p.tags is None ==> !has_key(update_members(p), "tags"@),
{
    lemma_body_keys_differ();
    let m = update_members(p);
    assert forall|i: int| 0 <= i < m.len() implies (#[trigger] m[i].0 == "ttl"@ ==> p.ttl is Some) && (m[i].0
        == "proxied"@ ==> p.proxied is Some) && (m[i].0 == "comment"@ ==> p.comment is Some) && (m[i].0
        == "tags"@ ==> p.tags is Some) by {}
}

/// A key is among `a + b` exactly when it is among `a` or among `b`.
proof fn lemma_has_key_concat(a: Seq<(Seq<char>, Seq<char>)>, b: Seq<(Seq<char>, Seq<char>)>, k: Seq<char>)
    ensures
        has_key(a + b, k) == (has_key(a, k) || has_key(b, k)),
{
    if has_key(a + b, k) {
        let i = choose|i: int| 0 <= i < (a + b).len() && #[trigger] (a + b)[i].0 == k;
        if i < a.len() {
            assert(a[i].0 == k);
        } else {
            assert(b[i - a.len()].0 == k);
        }
    }
    if has_key(a, k) {
        let i = choose|i: int| 0 <= i < a.len() && #[trigger] a[i].0 == k;
        assert((a + b)[i].0 == k);
    }
    if has_key(b, k) {
        let i = choose|i: int| 0 <= i < b.len() && #[trigger] b[i].0 == k;
        assert((a + b)[a.len() + i].0 == k);
    }
}

/// The body of a patch carries every field the caller set, each with its
/// value.
#[verifier::spinoff_prover]
pub proof fn lemma_patch_body_carries_set_fields(p: PatchDnsRecordParams)
    ensures
        p.ttl matches Some(n) ==> patch_members(p).contains(("ttl"@, decimal_text(n as nat))),
        p.proxied matches Some(b) ==> patch_members(p).contains(("proxied"@, bool_text(b))),
        p.name matches Some(n) ==> patch_members(p).contains(("name"@, json_string_text(n@))),
        p.content matches Some(c) ==> patch_members(p).contains(("type"@, json_string_text(record_type_name(c))))
            && patch_members(p).contains(("content"@, json_string_text(content_text(c)))),
        p.comment matches Some(c) ==> patch_members(p).contains(("comment"@, json_string_text(c@))),
        p.tags matches Some(ts) ==> patch_members(p).contains(("tags"@, string_list_text(ts@))),
{
    let m = patch_members(p);
    let t = if p.ttl is Some { 1int } else { 0 };
    let x = if p.proxied is Some { 1int } else { 0 };
    let n = if p.name is Some { 1int } else { 0 };
    let c = match p.content {
        Some(DnsContent::MX { .. }) => 3int,
        Some(_) => 2,
        None => 0,
    };
    let k = if p.comment is Some { 1int } else { 0 };
    if let Some(v) = p.ttl {
        assert(m[0] == ("ttl"@, decimal_text(v as nat)));
    }
    if let Some(b) = p.proxied {
        assert(m[t] == ("proxied"@, bool_text(b)));
    }
    if let Some(v) = p.name {
        assert(m[t + x] == ("name"@, json_string_text(v@)));
    }
    if let Some(d) = p.content {
        assert(m[t + x + n] == ("type"@, json_string_text(record_type_name(d))));
        assert(m[t + x + n + 1] == ("content"@, json_string_text(content_text(d))));
    }
    if let Some(s) = p.comment {
        assert(m[t + x + n + c] == ("comment"@, json_string_text(s@)));
    }
    if let Some(ts) = p.tags {
        assert(m[t + x + n + c + k] == ("tags"@, string_list_text(ts@)));
    }
}

/// The body of a patch has no key for a field left unset: a patch changes
/// only what it names.
#[verifier::spinoff_prover]
pub proof fn lemma_patch_body_omits_unset_fields(p: PatchDnsRecordParams)
    ensures
        p.ttl is None ==> !has_key(patch_members(p), "ttl"@),
        p.proxied is None ==> !has_key(patch_members(p), "proxied"@),
        p.name is None ==> !has_key(patch_members(p), "name"@),
        p.content is None ==> !has_key(patch_members(p), "type"@) && !has_key(patch_members(p), "content"@),
        p.comment is None ==> !has_key(patch_members(p), "comment"@),
        p.tags is None ==> !has_key(patch_members(p), "tags"@),
{
    lemma_body_keys_differ();
    let a1 = opt_number_member("ttl"@, opt_nat_u32(p.ttl));
    let a2 = opt_bool_member("proxied"@, p.proxied);
    let a3 = opt_string_member("name"@, opt_str_view(p.name));
    let a4 = match p.content {
        Some(c) => content_members(c),
        None => seq![],
    };
    let a5 = opt_string_member("comment"@, opt_str_view(p.comment));
    let a6 = opt_string_list_member("tags"@, opt_strings_view(p.tags));
    assert(patch_members(p) == a1 + a2 + a3 + a4 + a5 + a6);
    let keys = seq!["ttl"@, "proxied"@, "name"@, "type"@, "content"@, "comment"@, "tags"@];
    assert forall|j: int| 0 <= j < keys.len() implies (has_key(patch_members(p), #[trigger] keys[j])
        == (has_key(a1, keys[j]) || has_key(a2, keys[j]) || has_key(a3, keys[j]) || has_key(a4, keys[j])
        || has_key(a5, keys[j]) || has_key(a6, keys[j]))) by {
        let k = keys[j];
        lemma_has_key_concat(a1 + a2 + a3 + a4 + a5, a6, k);
        lemma_has_key_concat(a1 + a2 + a3 + a4, a5, k);
        lemma_has_key_concat(a1 + a2 + a3, a4, k);
        lemma_has_key_concat(a1 + a2, a3, k);
        lemma_has_key_concat(a1, a2, k);
    }
    assert(keys[0] == "ttl"@ && keys[1] == "proxied"@ && keys[2] == "name"@ && keys[3] == "type"@);
    assert(keys[4] == "content"@ && keys[5] == "comment"@ && keys[6] == "tags"@);
    if let Some(c) = p.content {
        if c is MX {
            assert(a4.len() == 3 && a4[0].0 == "type"@ && a4[1].0 == "content"@ && a4[2].0 == "priority"@);
        } else {
            assert(a4.len() == 2 && a4[0].0 == "type"@ && a4[1].0 == "content"@);
        }
    }
}

/// The wire names of the order fields, directions and search matches: the
/// lower-case name of what was chosen, so that different choices send
/// different values.
pub proof fn lemma_listing_names(o1: ListDnsRecordsOrder, o2: ListDnsRecordsOrder, d1: OrderDirection, d2: OrderDirection, m1: SearchMatch, m2: SearchMatch)
    ensures
        order_name(ListDnsRecordsOrder::Type) == seq!['t', 'y', 'p', 'e'],
        order_name(ListDnsRecordsOrder::Name) == seq!['n', 'a', 'm', 'e'],
        order_name(ListDnsRecordsOrder::Content) == seq!['c', 'o', 'n', 't', 'e', 'n', 't'],
        order_name(ListDnsRecordsOrder::Ttl) == seq!['t', 't', 'l'],
        order_name(ListDnsRecordsOrder::Proxied) == seq!['p', 'r', 'o', 'x', 'i', 'e', 'd'],
        direction_name(OrderDirection::Ascending) == seq!['a', 's', 'c'],
        direction_name(OrderDirection::Descending) == seq!['d', 'e', 's', 'c'],
        search_match_name(SearchMatch::All) == seq!['a', 'l', 'l'],
        search_match_name(SearchMatch::Any) == seq!['a', 'n', 'y'],
        order_name(o1) == order_name(o2) ==> o1 == o2,
        direction_name(d1) == direction_name(d2) ==> d1 == d2,
        search_match_name(m1) == search_match_name(m2) ==> m1 == m2,
{
    reveal_strlit("type");
    reveal_strlit("name");
    reveal_strlit("content");
    reveal_strlit("ttl");
    reveal_strlit("proxied");
    reveal_strlit("asc");
    reveal_strlit("desc");
    reveal_strlit("all");
    reveal_strlit("any");
    assert(order_name(ListDnsRecordsOrder::Type) =~= seq!['t', 'y', 'p', 'e']);
    assert(order_name(ListDnsRecordsOrder::Name) =~= seq!['n', 'a', 'm', 'e']);
    assert(order_name(ListDnsRecordsOrder::Content) =~= seq!['c', 'o', 'n', 't', 'e', 'n', 't']);
    assert(order_name(ListDnsRecordsOrder::Ttl) =~= seq!['t', 't', 'l']);
    assert(order_name(ListDnsRecordsOrder::Proxied) =~= seq!['p', 'r', 'o', 'x', 'i', 'e', 'd']);
    assert(direction_name(OrderDirection::Ascending) =~= seq!['a', 's', 'c']);
    assert(direction_name(OrderDirection::Descending) =~= seq!['d', 'e', 's', 'c']);
    assert(search_match_name(SearchMatch::All) =~= seq!['a', 'l', 'l']);
    assert(search_match_name(SearchMatch::Any) =~= seq!['a', 'n', 'y']);
    if order_name(o1) == order_name(o2) {
        assert(order_name(o1).len() == order_name(o2).len());
        assert(order_name(o1)[0] == order_name(o2)[0]);
        assert(order_name(o1)[1] == order_name(o2)[1]);
    }
    if direction_name(d1) == direction_name(d2) {
        assert(direction_name(d1).len() == direction_name(d2).len());
    }
    if search_match_name(m1) == search_match_name(m2) {
        assert(search_match_name(m1)[1] == search_match_name(m2)[1]);
    }
}

/// The keys of the listing query, told apart by their letters.
proof fn lemma_query_keys_differ()
    ensures
        "page"@ =~= seq!['p', 'a', 'g', 'e'],
        "per_page"@ =~= seq!['p', 'e', 'r', '_', 'p', 'a', 'g', 'e'],
        "order"@ =~= seq!['o', 'r', 'd', 'e', 'r'],
        "direction"@ =~= seq!['d', 'i', 'r', 'e', 'c', 't', 'i', 'o', 'n'],
        "match"@ =~= seq!['m', 'a', 't', 'c', 'h'],
        "type"@ =~= seq!['t', 'y', 'p', 'e'],
        "content"@ =~= seq!['c', 'o', 'n', 't', 'e', 'n', 't'],
        "priority"@ =~= seq!['p', 'r', 'i', 'o', 'r', 'i', 't', 'y'],
        "name.contains"@.len() == 13 && "name.contains"@[0] == 'n',
        "name.startswith"@.len() == 15 && "name.startswith"@[0] == 'n',
        "name.endswith"@.len() == 13 && "name.endswith"@[0] == 'n',
        "name.exact"@.len() == 10 && "name.exact"@[0] == 'n',
        "content.contains"@.len() == 16 && "content.contains"@[0] == 'c',
        "content.startswith"@.len() == 18 && "content.startswith"@[0] == 'c',
        "content.endswith"@.len() == 16 && "content.endswith"@[0] == 'c',
        "content.exact"@.len() == 13 && "content.exact"@[0] == 'c',
{
    reveal_strlit("page");
    reveal_strlit("per_page");
    reveal_strlit("order");
    reveal_strlit("direction");
    reveal_strlit("match");
    reveal_strlit("type");
    reveal_strlit("content");
    reveal_strlit("priority");
    reveal_strlit("name.contains");
    reveal_strlit("name.startswith");
    reveal_strlit("name.endswith");
    reveal_strlit("name.exact");
    reveal_strlit("content.contains");
    reveal_strlit("content.startswith");
    reveal_strlit("content.endswith");
    reveal_strlit("content.exact");
}

/// What is in `a` or in `b` is in `a + b`.
proof fn lemma_contains_concat(a: Seq<(Seq<char>, Seq<char>)>, b: Seq<(Seq<char>, Seq<char>)>, x: (Seq<char>, Seq<char>))
    ensures
        a.contains(x) ==> (a + b).contains(x),
        b.contains(x) ==> (a + b).contains(x),
{
    if a.contains(x) {
        let i = choose|i: int| 0 <= i < a.len() && a[i] == x;
        assert((a + b)[i] == x);
    }
    if b.contains(x) {
        let i = choose|i: int| 0 <= i < b.len() && b[i] == x;
        assert((a + b)[a.len() + i] == x);
    }
}

/// The paging pairs carry each paging parameter that is set.
proof fn lemma_paging_pairs(p: ListDnsRecordsParams)
    ensures
        p.page matches Some(n) ==> list_paging_pairs(p).contains(("page"@, decimal_text(n as nat))),
        p.per_page matches Some(n) ==> list_paging_pairs(p).contains(("per_page"@, decimal_text(n as nat))),
        p.order matches Some(o) ==> list_paging_pairs(p).contains(("order"@, order_name(o))),
        p.direction matches Some(d) ==> list_paging_pairs(p).contains(("direction"@, direction_name(d))),
        p.search_match matches Some(m) ==> list_paging_pairs(p).contains(("match"@, search_match_name(m))),
{
    let g = list_paging_pairs(p);
    let a = if p.page is Some { 1int } else { 0 };
    let b = if p.per_page is Some { 1int } else { 0 };
    let o = if p.order is Some { 1int } else { 0 };
    let d = if p.direction is Some { 1int } else { 0 };
    if let Some(n) = p.page {
        assert(g[0] == ("page"@, decimal_text(n as nat)));
    }
    if let Some(n) = p.per_page {
        assert(g[a] == ("per_page"@, decimal_text(n as nat)));
    }
    if let Some(v) = p.order {
        assert(g[a + b] == ("order"@, order_name(v)));
    }
    if let Some(v) = p.direction {
        assert(g[a + b + o] == ("direction"@, direction_name(v)));
    }
    if let Some(v) = p.search_match {
        assert(g[a + b + o + d] == ("match"@, search_match_name(v)));
    }
}

/// The filter pairs carry the type filter and a record filter's type and
/// content.
proof fn lemma_filter_pairs(p: ListDnsRecordsParams)
    ensures
        p.type_filter matches Some(t) ==> list_filter_pairs(p).contains(("type"@, t@)),
        p.record_type matches Some(c) ==> list_filter_pairs(p).contains(("type"@, record_type_name(c)))
            && list_filter_pairs(p).contains(("content"@, content_text(c))),
{
    let f = list_filter_pairs(p);
    let r = match p.record_type {
        Some(DnsContent::MX { .. }) => 3int,
        Some(_) => 2,
        None => 0,
    };
    if let Some(c) = p.record_type {
        assert(f[0] == ("type"@, record_type_name(c)));
        assert(f[1] == ("content"@, content_text(c)));
    }
    if let Some(t) = p.type_filter {
        assert(f[r] == ("type"@, t@));
    }
}

/// The query of a listing carries the paging and ordering the caller set,
/// each with its value: `page` and `per_page` as decimal numbers, `order`,
/// `direction` and `match` as the wire names of the choices, the type filter
/// as given, and the type and content of a record filter.
pub proof fn lemma_list_query_carries_set_params(p: ListDnsRecordsParams)
    ensures
        p.page matches Some(n) ==> list_pairs(p).contains(("page"@, decimal_text(n as nat))),
        p.per_page matches Some(n) ==> list_pairs(p).contains(("per_page"@, decimal_text(n as nat))),
        p.order matches Some(o) ==> list_pairs(p).contains(("order"@, order_name(o))),
        p.direction matches Some(d) ==> list_pairs(p).contains(("direction"@, direction_name(d))),
        p.search_match matches Some(m) ==> list_pairs(p).contains(("match"@, search_match_name(m))),
        p.type_filter matches Some(t) ==> list_pairs(p).contains(("type"@, t@)),
        p.record_type matches Some(c) ==> list_pairs(p).contains(("type"@, record_type_name(c)))
            && list_pairs(p).contains(("content"@, content_text(c))),
{
    let f = list_filter_pairs(p);
    let g = list_paging_pairs(p);
    assert(list_pairs(p) == f + g);
    lemma_paging_pairs(p);
    lemma_filter_pairs(p);
    if let Some(n) = p.page {
        lemma_contains_concat(f, g, ("page"@, decimal_text(n as nat)));
    }
    if let Some(n) = p.per_page {
        lemma_contains_concat(f, g, ("per_page"@, decimal_text(n as nat)));
    }
    if let Some(v) = p.order {
        lemma_contains_concat(f, g, ("order"@, order_name(v)));
    }
    if let Some(v) = p.direction {
        lemma_contains_concat(f, g, ("direction"@, direction_name(v)));
    }
    if let Some(v) = p.search_match {
        lemma_contains_concat(f, g, ("match"@, search_match_name(v)));
    }
    if let Some(t) = p.type_filter {
        lemma_contains_concat(f, g, ("type"@, t@));
    }
    if let Some(c) = p.record_type {
        lemma_contains_concat(f, g, ("type"@, record_type_name(c)));
        lemma_contains_concat(f, g, ("content"@, content_text(c)));
    }
}

/// A key of a one-pair-at-most sequence is that pair's key.
proof fn lemma_opt_pair_key(k: Seq<char>, v: Option<Seq<char>>, q: Seq<char>)
    ensures
        has_key(opt_pair_of(k, v), q) ==> q == k,
{
    if has_key(opt_pair_of(k, v), q) {
        let i = choose|i: int| 0 <= i < opt_pair_of(k, v).len() && #[trigger] opt_pair_of(k, v)[i].0 == q;
        assert(opt_pair_of(k, v)[i].0 == k);
    }
}

/// The keys among the filter pairs: the record filter's `type`, `content`
/// and `priority`, the type filter's `type`, and the name and content filter
/// keys.
proof fn lemma_filter_keys(p: ListDnsRecordsParams, q: Seq<char>)
    requires
        has_key(list_filter_pairs(p), q),
    ensures
        q == "type"@ || q == "content"@ || q == "priority"@ || q == "name.contains"@ || q
            == "name.startswith"@ || q == "name.endswith"@ || q == "name.exact"@ || q == "content.contains"@
            || q == "content.startswith"@ || q == "content.endswith"@ || q == "content.exact"@,
{
    let a = match p.record_type {
        Some(c) => content_pairs(c),
        None => seq![],
    };
    let b = opt_pair_of("type"@, opt_string_view(p.type_filter));
    let c = match p.name {
        Some(n) => name_pairs(n),
        None => seq![],
    };
    let d = match p.content {
        Some(n) => content_filter_pairs(n),
        None => seq![],
    };
    assert(list_filter_pairs(p) == a + b + c + d);
    lemma_has_key_concat(a + b + c, d, q);
    lemma_has_key_concat(a + b, c, q);
    lemma_has_key_concat(a, b, q);
    lemma_opt_pair_key("type"@, opt_string_view(p.type_filter), q);
    if has_key(a, q) {
        let i = choose|i: int| 0 <= i < a.len() && #[trigger] a[i].0 == q;
        let rc = p.record_type->0;
        if i >= 2 {
            lemma_opt_pair_key("priority"@, match content_priority(rc) {
                Some(v) => Some(decimal_text(v)),
                None => None,
            }, q);
            assert(a == seq![("type"@, record_type_name(rc)), ("content"@, content_text(rc))] + opt_pair_of(
                "priority"@,
                match content_priority(rc) {
                    Some(v) => Some(decimal_text(v)),
                    None => None,
                },
            ));
            assert(a[i] == opt_pair_of("priority"@, match content_priority(rc) {
                Some(v) => Some(decimal_text(v)),
                None => None,
            })[i - 2]);
            assert(has_key(opt_pair_of("priority"@, match content_priority(rc) {
                Some(v) => Some(decimal_text(v)),
                None => None,
            }), q));
        }
    }
    if has_key(c, q) {
        let n = p.name->0;
        let c1 = opt_pair_of("name.contains"@, opt_string_view(n.contains));
        let c2 = opt_pair_of("name.startswith"@, opt_string_view(n.starts_with));
        let c3 = opt_pair_of("name.endswith"@, opt_string_view(n.ends_with));
        let c4 = opt_pair_of("name.exact"@, opt_string_view(n.exact));
        assert(c == c1 + c2 + c3 + c4);
        lemma_has_key_concat(c1 + c2 + c3, c4, q);
        lemma_has_key_concat(c1 + c2, c3, q);
        lemma_has_key_concat(c1, c2, q);
        lemma_opt_pair_key("name.contains"@, opt_string_view(n.contains), q);
        lemma_opt_pair_key("name.startswith"@, opt_string_view(n.starts_with), q);
        lemma_opt_pair_key("name.endswith"@, opt_string_view(n.ends_with), q);
        lemma_opt_pair_key("name.exact"@, opt_string_view(n.exact), q);
    }
    if has_key(d, q) {
        let n = p.content->0;
        let c1 = opt_pair_of("content.contains"@, opt_string_view(n.contains));
        let c2 = opt_pair_of("content.startswith"@, opt_string_view(n.starts_with));
        let c3 = opt_pair_of("content.endswith"@, opt_string_view(n.ends_with));
        let c4 = opt_pair_of("content.exact"@, opt_string_view(n.exact));
        assert(d == c1 + c2 + c3 + c4);
        lemma_has_key_concat(c1 + c2 + c3, c4, q);
        lemma_has_key_concat(c1 + c2, c3, q);
        lemma_has_key_concat(c1, c2, q);
        lemma_opt_pair_key("content.contains"@, opt_string_view(n.contains), q);
        lemma_opt_pair_key("content.startswith"@, opt_string_view(n.starts_with), q);
        lemma_opt_pair_key("content.endswith"@, opt_string_view(n.ends_with), q);
        lemma_opt_pair_key("content.exact"@, opt_string_view(n.exact), q);
    }
}

/// The query of a listing has no paging or ordering key that the caller
/// left unset.
pub proof fn lemma_list_query_omits_unset_params(p: ListDnsRecordsParams)
    ensures
        p.page is None ==> !has_key(list_pairs(p), "page"@),
        p.per_page is None ==> !has_key(list_pairs(p), "per_page"@),
        p.order is None ==> !has_key(list_pairs(p), "order"@),
        p.direction is None ==> !has_key(list_pairs(p), "direction"@),
        p.search_match is None ==> !has_key(list_pairs(p), "match"@),
{
    lemma_query_keys_differ();
    let f = list_filter_pairs(p);
    let g1 = opt_pair_of("page"@, opt_decimal(p.page));
    let g2 = opt_pair_of("per_page"@, opt_decimal(p.per_page));
    let g3 = opt_pair_of("order"@, opt_order_name(p.order));
    let g4 = opt_pair_of("direction"@, opt_direction_name(p.direction));
    let g5 = opt_pair_of("match"@, opt_search_match_name(p.search_match));
    assert(list_pairs(p) == f + (g1 + g2 + g3 + g4 + g5));
    let keys = seq!["page"@, "per_page"@, "order"@, "direction"@, "match"@];
    assert forall|j: int| 0 <= j < 5 implies !has_key(#[trigger] list_pairs(p), keys[j]) || (has_key(g1, keys[j])
        || has_key(g2, keys[j]) || has_key(g3, keys[j]) || has_key(g4, keys[j]) || has_key(g5, keys[j])) by {
        let k = keys[j];
        lemma_has_key_concat(f, g1 + g2 + g3 + g4 + g5, k);
        lemma_has_key_concat(g1 + g2 + g3 + g4, g5, k);
        lemma_has_key_concat(g1 + g2 + g3, g4, k);
        lemma_has_key_concat(g1 + g2, g3, k);
        lemma_has_key_concat(g1, g2, k);
        if has_key(f, k) {
            lemma_filter_keys(p, k);
        }
    }
    assert(keys[0] == "page"@ && keys[1] == "per_page"@ && keys[2] == "order"@);
    assert(keys[3] == "direction"@ && keys[4] == "match"@);
    lemma_opt_pair_key("page"@, opt_decimal(p.page), "per_page"@);
    lemma_opt_pair_key("per_page"@, opt_decimal(p.per_page), "page"@);
    lemma_opt_pair_key("order"@, opt_order_name(p.order), "page"@);
    lemma_opt_pair_key("order"@, opt_order_name(p.order), "per_page"@);
    lemma_opt_pair_key("direction"@, opt_direction_name(p.direction), "page"@);
    lemma_opt_pair_key("direction"@, opt_direction_name(p.direction), "per_page"@);
    lemma_opt_pair_key("direction"@, opt_direction_name(p.direction), "order"@);
    lemma_opt_pair_key("match"@, opt_search_match_name(p.search_match), "page"@);
    lemma_opt_pair_key("match"@, opt_search_match_name(p.search_match), "per_page"@);
    lemma_opt_pair_key("match"@, opt_search_match_name(p.search_match), "order"@);
    lemma_opt_pair_key("match"@, opt_search_match_name(p.search_match), "direction"@);
    lemma_opt_pair_key("page"@, opt_decimal(p.page), "order"@);
    lemma_opt_pair_key("page"@, opt_decimal(p.page), "direction"@);
    lemma_opt_pair_key("page"@, opt_decimal(p.page), "match"@);
    lemma_opt_pair_key("per_page"@, opt_decimal(p.per_page), "order"@);
    lemma_opt_pair_key("per_page"@, opt_decimal(p.per_page), "direction"@);
    lemma_opt_pair_key("per_page"@, opt_decimal(p.per_page), "match"@);
    lemma_opt_pair_key("order"@, opt_order_name(p.order), "direction"@);
    lemma_opt_pair_key("order"@, opt_order_name(p.order), "match"@);
    lemma_opt_pair_key("direction"@, opt_direction_name(p.direction), "match"@);
}

/// How a record that arrives with a type name and some content decodes, for
/// each type that has a variant of its own: CAA, CNAME, NS, PTR, TXT and SRV
/// records with text content become their variant with that content,
/// whatever other fields (such as a priority) came along; an MX record
/// becomes MX with its priority, or `Other` without one; an A or AAAA record
/// becomes its address where the content parses as one, and `Other`
/// otherwise. A record without content becomes `Other` with empty content,
/// and one whose content is not text does not decode.
#[verifier::spinoff_prover]
#[verifier::rlimit(30)]
pub proof fn lemma_record_fields_decode(f: RecordFields, r: Option<DnsContent>)
    requires
        f.record_type is Some,
        decodes_to(f, r),
    ensures
        ({
            let name = f.record_type->0;
            let t = name@;
            &&& f.content matches RecordContent::Text(s) ==> {
                &&& t == "CAA"@ ==> r == Some(DnsContent::CAA { content: s })
                &&& t == "CNAME"@ ==> r == Some(DnsContent::CNAME { content: s })
                &&& t == "NS"@ ==> r == Some(DnsContent::NS { content: s })
                &&& t == "PTR"@ ==> r == Some(DnsContent::PTR { content: s })
                &&& t == "TXT"@ ==> r == Some(DnsContent::TXT { content: s })
                &&& t == "SRV"@ ==> r == Some(DnsContent::SRV { content: s })
                &&& (t == "MX"@ && f.priority is Some) ==> r == Some(
                    DnsContent::MX { content: s, priority: f.priority->0 },
                )
                &&& (t == "MX"@ && f.priority is None) ==> r == Some(
                    DnsContent::Other { record_type: name, content: s },
                )
                &&& (t == "A"@ && parse_v4(s@) is Some) ==> (r matches Some(DnsContent::A { content })
                    && Some(content.octets@) == parse_v4(s@))
                &&& (t == "A"@ && parse_v4(s@) is None) ==> r == Some(
                    DnsContent::Other { record_type: name, content: s },
                )
                &&& (t == "AAAA"@ && parse_v6(s@) is Some) ==> (r matches Some(DnsContent::AAAA { content })
                    && Some(content.segments@) == parse_v6(s@))
                &&& (t == "AAAA"@ && parse_v6(s@) is None) ==> r == Some(
                    DnsContent::Other { record_type: name, content: s },
                )
            }
            &&& f.content is Absent ==> (r matches Some(DnsContent::Other { record_type, content })
                && record_type == name && content@.len() == 0)
            &&& f.content is NotText ==> r is None
        }),
{
    lemma_type_names_differ();
    let name = f.record_type->0;
    let t = name@;
    match f.content {
        RecordContent::Text(s) => {
            if t == "A"@ {
                assert(tagged_content(t, f) is None);
            } else if t == "AAAA"@ {
                assert(tagged_content(t, f) is None);
            } else if t == "CAA"@ {
                assert(tagged_content(t, f) == Some(DnsContent::CAA { content: s }));
            } else if t == "CNAME"@ {
                assert(tagged_content(t, f) == Some(DnsContent::CNAME { content: s }));
            } else if t == "NS"@ {
                assert(tagged_content(t, f) == Some(DnsContent::NS { content: s }));
            } else if t == "PTR"@ {
                assert(tagged_content(t, f) == Some(DnsContent::PTR { content: s }));
            } else if t == "TXT"@ {
                assert(tagged_content(t, f) == Some(DnsContent::TXT { content: s }));
            } else if t == "SRV"@ {
                assert(tagged_content(t, f) == Some(DnsContent::SRV { content: s }));
            } else if t == "MX"@ {
                if f.priority is Some {
                    assert(tagged_content(t, f) == Some(
                        DnsContent::MX { content: s, priority: f.priority->0 },
                    ));
                } else {
                    assert(tagged_content(t, f) is None);
                }
            }
        },
        _ => {
            assert(tagged_content(t, f) is None);
        },
    }
}

/// The paths of the record endpoints: the zone's records at
/// `zones/{zone}/dns_records`, one record below it at `/{id}`, and the
/// export below it at `/export`.
pub proof fn lemma_record_paths(zone: Seq<char>, id: Seq<char>)
    ensures
        records_path(zone) == seq!['z', 'o', 'n', 'e', 's', '/'] + zone + seq![
            '/', 'd', 'n', 's', '_', 'r', 'e', 'c', 'o', 'r', 'd', 's',
        ],
        record_path(zone, id) == records_path(zone) + seq!['/'] + id,
        export_path(zone) == records_path(zone) + seq!['/', 'e', 'x', 'p', 'o', 'r', 't'],
{
    reveal_strlit("zones/");
    reveal_strlit("/dns_records");
    reveal_strlit("/dns_records/");
    reveal_strlit("/dns_records/export");
    assert(records_path(zone) =~= seq!['z', 'o', 'n', 'e', 's', '/'] + zone + seq![
        '/', 'd', 'n', 's', '_', 'r', 'e', 'c', 'o', 'r', 'd', 's',
    ]);
    assert(record_path(zone, id) =~= records_path(zone) + seq!['/'] + id);
    assert(export_path(zone) =~= records_path(zone) + seq!['/', 'e', 'x', 'p', 'o', 'r', 't']);
}

/// The type name of each variant is its own upper-case name, an `Other`
/// value's the name it holds; its content text is its content, in textual
/// form for an address; only MX carries a priority, which is sent as a
/// decimal `priority` member.
pub proof fn lemma_record_type_names(c: DnsContent)
    ensures
        c is A ==> record_type_name(c) == seq!['A'] && content_text(c) == ipv4_text(c->A_content.octets@),
        c is AAAA ==> record_type_name(c) == seq!['A', 'A', 'A', 'A'] && content_text(c) == ipv6_text(
            c->AAAA_content.segments@,
        ),
        c matches DnsContent::CAA { content } ==> record_type_name(c) == seq!['C', 'A', 'A'] && content_text(c)
            == content@,
        c matches DnsContent::CNAME { content } ==> record_type_name(c) == seq!['C', 'N', 'A', 'M', 'E']
            && content_text(c) == content@,
        c matches DnsContent::NS { content } ==> record_type_name(c) == seq!['N', 'S'] && content_text(c)
            == content@,
        c matches DnsContent::MX { content, priority } ==> record_type_name(c) == seq!['M', 'X'] && content_text(
            c,
        ) == content@ && content_members(c).contains(("priority"@, decimal_text(priority as nat))),
        c matches DnsContent::PTR { content } ==> record_type_name(c) == seq!['P', 'T', 'R'] && content_text(c)
            == content@,
        c matches DnsContent::TXT { content } ==> record_type_name(c) == seq!['T', 'X', 'T'] && content_text(c)
            == content@,
        c matches DnsContent::SRV { content } ==> record_type_name(c) == seq!['S', 'R', 'V'] && content_text(c)
            == content@,
        c matches DnsContent::Other { record_type, content } ==> record_type_name(c) == record_type@
            && content_text(c) == content@,
        !(c is MX) ==> !has_key(content_members(c), "priority"@),
{
    lemma_type_names_differ();
    lemma_body_keys_differ();
    reveal_strlit("A");
    reveal_strlit("AAAA");
    reveal_strlit("CAA");
    reveal_strlit("CNAME");
    reveal_strlit("NS");
    reveal_strlit("MX");
    reveal_strlit("PTR");
    reveal_strlit("TXT");
    reveal_strlit("SRV");
    assert("A"@ =~= seq!['A']);
    assert("AAAA"@ =~= seq!['A', 'A', 'A', 'A']);
    assert("CAA"@ =~= seq!['C', 'A', 'A']);
    assert("CNAME"@ =~= seq!['C', 'N', 'A', 'M', 'E']);
    assert("NS"@ =~= seq!['N', 'S']);
    assert("MX"@ =~= seq!['M', 'X']);
    assert("PTR"@ =~= seq!['P', 'T', 'R']);
    assert("TXT"@ =~= seq!['T', 'X', 'T']);
    assert("SRV"@ =~= seq!['S', 'R', 'V']);
    if let DnsContent::MX { priority, .. } = c {
        assert(content_members(c)[2] == ("priority"@, decimal_text(priority as nat)));
    }
}

} // verus!
