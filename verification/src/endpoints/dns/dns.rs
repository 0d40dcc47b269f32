//! DNS record endpoints: what each one sends, and the record types.

use vstd::prelude::*;
use crate::framework::endpoint::{
    JsonObjectWriter, Method, QueryWriter, RequestBody, object_text, opt_bool_member,
    opt_number_member, opt_nat_u16, opt_nat_u32, opt_pair_of, opt_str_view, opt_string_list_member,
    opt_string_member, opt_string_view, opt_strings_view, query_of, string_member,
};
use crate::framework::json::{JsonValue, json_string_text};
use crate::framework::{OrderDirection, SearchMatch, direction_name, search_match_name};
use crate::net::{Ipv4Address, Ipv6Address, ipv4_text, ipv6_text};
use crate::ip_parse::{parse_ipv4, parse_ipv6, parse_v4, parse_v6, lemma_parse_ipv4_canonical, lemma_parse_ipv4_text, lemma_parse_ipv6_text};
use crate::text::{decimal_string, decimal_text, push_str, str_equal};

verus! {

/// Type of a DNS record, together with its value.
///
/// Record types without a variant of their own (HTTPS, DS, TLSA, ...) are
/// [`DnsContent::Other`], with the type name as the API reports it.
#[derive(Debug)]
#[allow(inconsistent_fields)]
pub enum DnsContent {
    A { content: Ipv4Address },
    AAAA { content: Ipv6Address },
    CAA { content: String },
    CNAME { content: String },
    NS { content: String },
    MX { content: String, priority: u16 },
    PTR { content: String },
    TXT { content: String },
    SRV { content: String },
    /// Any other record type, with the type name as the API reports it.
    Other { record_type: String, content: String },
}

/// The record type name, e.g. `A` or `HTTPS`.
pub open spec fn record_type_name(c: DnsContent) -> Seq<char> {
    match c {
        DnsContent::A { .. } => "A"@,
        DnsContent::AAAA { .. } => "AAAA"@,
        DnsContent::CAA { .. } => "CAA"@,
        DnsContent::CNAME { .. } => "CNAME"@,
        DnsContent::NS { .. } => "NS"@,
        DnsContent::MX { .. } => "MX"@,
        DnsContent::PTR { .. } => "PTR"@,
        DnsContent::TXT { .. } => "TXT"@,
        DnsContent::SRV { .. } => "SRV"@,
        DnsContent::Other { record_type, .. } => record_type@,
    }
}

/// The record value as text: addresses in their textual form, other values
/// as they are.
pub open spec fn content_text(c: DnsContent) -> Seq<char> {
    match c {
        DnsContent::A { content } => ipv4_text(content.octets@),
        DnsContent::AAAA { content } => ipv6_text(content.segments@),
        DnsContent::CAA { content } => content@,
        DnsContent::CNAME { content } => content@,
        DnsContent::NS { content } => content@,
        DnsContent::MX { content, .. } => content@,
        DnsContent::PTR { content } => content@,
        DnsContent::TXT { content } => content@,
        DnsContent::SRV { content } => content@,
        DnsContent::Other { content, .. } => content@,
    }
}

/// The priority that an MX record carries.
pub open spec fn content_priority(c: DnsContent) -> Option<nat> {
    match c {
        DnsContent::MX { priority, .. } => Some(priority as nat),
        _ => None,
    }
}

/// JSON members of a record type and value: `type`, `content`, and for MX
/// records `priority`.
pub open spec fn content_members(c: DnsContent) -> Seq<(Seq<char>, Seq<char>)> {
    string_member("type"@, record_type_name(c)) + string_member("content"@, content_text(c))
        + opt_number_member("priority"@, content_priority(c))
}

/// Query pairs of a record type and value: `type`, `content`, and for MX
/// records `priority`.
pub open spec fn content_pairs(c: DnsContent) -> Seq<(Seq<char>, Seq<char>)> {
    seq![("type"@, record_type_name(c)), ("content"@, content_text(c))] + opt_pair_of(
        "priority"@,
        match content_priority(c) {
            Some(p) => Some(decimal_text(p)),
            None => None,
        },
    )
}

impl DnsContent {
    /// The record type name, e.g. `"A"` or `"HTTPS"`.
    pub fn record_type(&self) -> (r: &str)
        ensures
            r@ == record_type_name(*self),
    {
        match self {
            DnsContent::A { .. } => "A",
            DnsContent::AAAA { .. } => "AAAA",
            DnsContent::CAA { .. } => "CAA",
            DnsContent::CNAME { .. } => "CNAME",
            DnsContent::NS { .. } => "NS",
            DnsContent::MX { .. } => "MX",
            DnsContent::PTR { .. } => "PTR",
            DnsContent::TXT { .. } => "TXT",
            DnsContent::SRV { .. } => "SRV",
            DnsContent::Other { record_type, .. } => record_type.as_str(),
        }
    }

    /// The record content as a string, as the API reports it.
    pub fn content(&self) -> (r: String)
        ensures
            r@ == content_text(*self),
    {
        match self {
            DnsContent::A { content } => content.to_text(),
            DnsContent::AAAA { content } => content.to_text(),
            DnsContent::CAA { content } => content.clone(),
            DnsContent::CNAME { content } => content.clone(),
            DnsContent::NS { content } => content.clone(),
            DnsContent::MX { content, .. } => content.clone(),
            DnsContent::PTR { content } => content.clone(),
            DnsContent::TXT { content } => content.clone(),
            DnsContent::SRV { content } => content.clone(),
            DnsContent::Other { content, .. } => content.clone(),
        }
    }

    /// The priority of an MX record.
    fn priority(&self) -> (r: Option<u16>)
        ensures
            opt_nat_u16(r) == content_priority(*self),
    {
        match self {
            DnsContent::MX { priority, .. } => Some(*priority),
            _ => None,
        }
    }

    /// Writes the type, value and priority as JSON members.
    pub fn write_members(&self, w: &mut JsonObjectWriter)
        requires
            old(w).wf(),
        ensures
            final(w).wf(),
            final(w).members() == old(w).members() + content_members(*self),
    {
        let ghost start = w.members();
        w.string("type", self.record_type());
        let c = self.content();
        w.string("content", c.as_str());
        match self.priority() {
            Some(p) => {
                w.number("priority", p as u64);
            },
            None => {},
        }
        assert(w.members() =~= start + content_members(*self));
    }

    /// Writes the type, value and priority as query pairs.
    pub fn write_pairs(&self, q: &mut QueryWriter)
        requires
            old(q).wf(),
        ensures
            final(q).wf(),
            final(q).pairs() == old(q).pairs() + content_pairs(*self),
    {
        let ghost start = q.pairs();
        q.pair("type", self.record_type());
        let c = self.content();
        q.pair("content", c.as_str());
        match self.priority() {
            Some(p) => {
                let t = decimal_string(p as u64);
                q.pair("priority", t.as_str());
            },
            None => {},
        }
        assert(q.pairs() =~= start + content_pairs(*self));
    }

    /// The JSON object of the record type and value, e.g.
    /// `{"type":"PTR","content":"host.example.com"}`.
    pub fn to_json(&self) -> (r: String)
        ensures
            r@ == object_text(content_members(*self)),
    {
        let mut w = JsonObjectWriter::new();
        self.write_members(&mut w);
        assert(w.members() =~= content_members(*self));
        w.finish()
    }
}

/// `zones/{zone}/dns_records`.
pub open spec fn records_path(zone: Seq<char>) -> Seq<char> {
    "zones/"@ + zone + "/dns_records"@
}

/// `zones/{zone}/dns_records/{id}`.
pub open spec fn record_path(zone: Seq<char>, id: Seq<char>) -> Seq<char> {
    "zones/"@ + zone + "/dns_records/"@ + id
}

/// `zones/{zone}/dns_records/export`.
pub open spec fn export_path(zone: Seq<char>) -> Seq<char> {
    "zones/"@ + zone + "/dns_records/export"@
}

fn make_records_path(zone: &str) -> (r: String)
    ensures
        r@ == records_path(zone@),
{
    let mut p = String::new();
    push_str(&mut p, "zones/");
    push_str(&mut p, zone);
    push_str(&mut p, "/dns_records");
    assert(p@ =~= records_path(zone@));
    p
}

fn make_record_path(zone: &str, id: &str) -> (r: String)
    ensures
        r@ == record_path(zone@, id@),
{
    let mut p = String::new();
    push_str(&mut p, "zones/");
    push_str(&mut p, zone);
    push_str(&mut p, "/dns_records/");
    push_str(&mut p, id);
    assert(p@ =~= record_path(zone@, id@));
    p
}

/// List DNS Records
/// <https://api.cloudflare.com/#dns-records-for-a-zone-list-dns-records>
#[derive(Debug)]
pub struct ListDnsRecords<'a> {
    pub zone_identifier: &'a str,
    pub params: ListDnsRecordsParams,
}

impl<'a> ListDnsRecords<'a> {
    pub fn method(&self) -> (r: Method)
        ensures
            r == Method::Get,
    {
        Method::Get
    }

    pub fn path(&self) -> (r: String)
        ensures
            r@ == records_path(self.zone_identifier@),
    {
        make_records_path(self.zone_identifier)
    }

    /// The URL query of the listing parameters: none when no parameter is set.
    pub fn query(&self) -> (r: Option<String>)
        ensures
            match r {
                Some(s) => query_of(list_pairs(self.params)) == Some(s@),
                None => query_of(list_pairs(self.params)) is None,
            },
    {
        self.params.query()
    }
}

/// Create DNS Record
/// <https://api.cloudflare.com/#dns-records-for-a-zone-create-dns-record>
#[derive(Debug)]
pub struct CreateDnsRecord<'a> {
    pub zone_identifier: &'a str,
    pub params: CreateDnsRecordParams<'a>,
}

impl<'a> CreateDnsRecord<'a> {
    pub fn method(&self) -> (r: Method)
        ensures
            r == Method::Post,
    {
        Method::Post
    }

    pub fn path(&self) -> (r: String)
        ensures
            r@ == records_path(self.zone_identifier@),
    {
        make_records_path(self.zone_identifier)
    }

    /// The parameters as a JSON body.
    pub fn body(&self) -> (r: Option<RequestBody>)
        ensures
            r matches Some(RequestBody::Json(t)) && t@ == object_text(create_members(self.params)),
    {
        Some(RequestBody::Json(self.params.to_json()))
    }
}

#[derive(Debug)]
pub struct CreateDnsRecordParams<'a> {
    /// Time to live for DNS record. Value of 1 is 'automatic'
    pub ttl: Option<u32>,
    /// Used with some records like MX and SRV to determine priority.
    /// If you do not supply a priority for an MX record, a default value of 0 will be set
    pub priority: Option<u16>,
    /// Whether the record is receiving the performance and security benefits of Cloudflare
    pub proxied: Option<bool>,
    /// DNS record name
    pub name: &'a str,
    /// Type of the DNS record that also holds the record value
    pub content: DnsContent,
}

/// JSON members of a creation: the set fields in declaration order, then the
/// record type and value.
pub open spec fn create_members(p: CreateDnsRecordParams) -> Seq<(Seq<char>, Seq<char>)> {
    opt_number_member("ttl"@, opt_nat_u32(p.ttl)) + opt_number_member(
        "priority"@,
        opt_nat_u16(p.priority),
    ) + opt_bool_member("proxied"@, p.proxied) + string_member("name"@, p.name@) + content_members(
        p.content,
    )
}

fn write_opt_u32(w: &mut JsonObjectWriter, key: &str, v: Option<u32>)
    requires
        old(w).wf(),
    ensures
        final(w).wf(),
        final(w).members() == old(w).members() + opt_number_member(key@, opt_nat_u32(v)),
{
    match v {
        Some(n) => w.number(key, n as u64),
        None => {},
    }
    assert(final(w).members() =~= old(w).members() + opt_number_member(key@, opt_nat_u32(v)));
}

fn write_opt_u16(w: &mut JsonObjectWriter, key: &str, v: Option<u16>)
    requires
        old(w).wf(),
    ensures
        final(w).wf(),
        final(w).members() == old(w).members() + opt_number_member(key@, opt_nat_u16(v)),
{
    match v {
        Some(n) => w.number(key, n as u64),
        None => {},
    }
    assert(final(w).members() =~= old(w).members() + opt_number_member(key@, opt_nat_u16(v)));
}

fn write_opt_bool(w: &mut JsonObjectWriter, key: &str, v: Option<bool>)
    requires
        old(w).wf(),
    ensures
        final(w).wf(),
        final(w).members() == old(w).members() + opt_bool_member(key@, v),
{
    match v {
        Some(b) => w.boolean(key, b),
        None => {},
    }
    assert(final(w).members() =~= old(w).members() + opt_bool_member(key@, v));
}

fn write_opt_str(w: &mut JsonObjectWriter, key: &str, v: Option<&str>)
    requires
        old(w).wf(),
    ensures
        final(w).wf(),
        final(w).members() == old(w).members() + opt_string_member(key@, opt_str_view(v)),
{
    match v {
        Some(s) => w.string(key, s),
        None => {},
    }
    assert(final(w).members() =~= old(w).members() + opt_string_member(key@, opt_str_view(v)));
}

fn write_opt_strings(w: &mut JsonObjectWriter, key: &str, v: Option<&[String]>)
    requires
        old(w).wf(),
    ensures
        final(w).wf(),
        final(w).members() == old(w).members() + opt_string_list_member(key@, opt_strings_view(v)),
{
    match v {
        Some(xs) => w.string_list(key, xs),
        None => {},
    }
    assert(final(w).members() =~= old(w).members() + opt_string_list_member(
        key@,
        opt_strings_view(v),
    ));
}

impl<'a> CreateDnsRecordParams<'a> {
    /// The JSON text sent to create the record: unset fields are left out.
    pub fn to_json(&self) -> (r: String)
        ensures
            r@ == object_text(create_members(*self)),
    {
        let mut w = JsonObjectWriter::new();
        write_opt_u32(&mut w, "ttl", self.ttl);
        write_opt_u16(&mut w, "priority", self.priority);
        write_opt_bool(&mut w, "proxied", self.proxied);
        w.string("name", self.name);
        self.content.write_members(&mut w);
        assert(w.members() =~= create_members(*self));
        w.finish()
    }
}

/// Delete DNS Record
/// <https://api.cloudflare.com/#dns-records-for-a-zone-delete-dns-record>
#[derive(Debug)]
pub struct DeleteDnsRecord<'a> {
    pub zone_identifier: &'a str,
    pub identifier: &'a str,
}

impl<'a> DeleteDnsRecord<'a> {
    pub fn method(&self) -> (r: Method)
        ensures
            r == Method::Delete,
    {
        Method::Delete
    }

    pub fn path(&self) -> (r: String)
        ensures
            r@ == record_path(self.zone_identifier@, self.identifier@),
    {
        make_record_path(self.zone_identifier, self.identifier)
    }
}

/// Update DNS Record
/// <https://api.cloudflare.com/#dns-records-for-a-zone-update-dns-record>
#[derive(Debug)]
pub struct UpdateDnsRecord<'a> {
    pub zone_identifier: &'a str,
    pub identifier: &'a str,
    pub params: UpdateDnsRecordParams<'a>,
}

impl<'a> UpdateDnsRecord<'a> {
    pub fn method(&self) -> (r: Method)
        ensures
            r == Method::Put,
    {
        Method::Put
    }

    pub fn path(&self) -> (r: String)
        ensures
            r@ == record_path(self.zone_identifier@, self.identifier@),
    {
        make_record_path(self.zone_identifier, self.identifier)
    }

    /// The parameters as a JSON body.
    pub fn body(&self) -> (r: Option<RequestBody>)
        ensures
            r matches Some(RequestBody::Json(t)) && t@ == object_text(update_members(self.params)),
    {
        Some(RequestBody::Json(self.params.to_json()))
    }
}

#[derive(Debug)]
pub struct UpdateDnsRecordParams<'a> {
    /// Time to live for DNS record. Value of 1 is 'automatic'
    pub ttl: Option<u32>,
    /// Whether the record is receiving the performance and security benefits of Cloudflare
    pub proxied: Option<bool>,
    /// DNS record name
    pub name: &'a str,
    /// Type of the DNS record that also holds the record value
    pub content: DnsContent,
    /// Comments or notes about the DNS record
    pub comment: Option<&'a str>,
    /// Custom tags for the DNS record. This field has no effect on DNS responses
    pub tags: Option<&'a [String]>,
}

/// JSON members of an update: the set fields in declaration order, with the
/// record type and value in place of `content`.
pub open spec fn update_members(p: UpdateDnsRecordParams) -> Seq<(Seq<char>, Seq<char>)> {
    opt_number_member("ttl"@, opt_nat_u32(p.ttl)) + opt_bool_member("proxied"@, p.proxied)
        + string_member("name"@, p.name@) + content_members(p.content) + opt_string_member(
        "comment"@,
        opt_str_view(p.comment),
    ) + opt_string_list_member("tags"@, opt_strings_view(p.tags))
}

impl<'a> UpdateDnsRecordParams<'a> {
    /// The JSON text sent to replace the record: unset fields are left out.
    pub fn to_json(&self) -> (r: String)
        ensures
            r@ == object_text(update_members(*self)),
    {
        let mut w = JsonObjectWriter::new();
        write_opt_u32(&mut w, "ttl", self.ttl);
        write_opt_bool(&mut w, "proxied", self.proxied);
        w.string("name", self.name);
        self.content.write_members(&mut w);
        write_opt_str(&mut w, "comment", self.comment);
        write_opt_strings(&mut w, "tags", self.tags);
        assert(w.members() =~= update_members(*self));
        w.finish()
    }
}

/// DNS Record Details
/// <https://developers.cloudflare.com/api/resources/dns/subresources/records/methods/get/>
#[derive(Debug)]
pub struct DnsRecordDetails<'a> {
    pub zone_identifier: &'a str,
    pub identifier: &'a str,
}

impl<'a> DnsRecordDetails<'a> {
    pub fn method(&self) -> (r: Method)
        ensures
            r == Method::Get,
    {
        Method::Get
    }

    pub fn path(&self) -> (r: String)
        ensures
            r@ == record_path(self.zone_identifier@, self.identifier@),
    {
        make_record_path(self.zone_identifier, self.identifier)
    }
}

/// Export DNS Records as a BIND zone file. The response is plain text.
/// <https://developers.cloudflare.com/api/resources/dns/subresources/records/methods/export/>
#[derive(Debug)]
pub struct ExportDnsRecords<'a> {
    pub zone_identifier: &'a str,
}

impl<'a> ExportDnsRecords<'a> {
    pub fn method(&self) -> (r: Method)
        ensures
            r == Method::Get,
    {
        Method::Get
    }

    pub fn path(&self) -> (r: String)
        ensures
            r@ == export_path(self.zone_identifier@),
    {
        let mut p = String::new();
        push_str(&mut p, "zones/");
        push_str(&mut p, self.zone_identifier);
        push_str(&mut p, "/dns_records/export");
        assert(p@ =~= export_path(self.zone_identifier@));
        p
    }
}

/// Patch DNS Record: change only the fields that are set.
/// <https://developers.cloudflare.com/api/resources/dns/subresources/records/methods/edit/>
#[derive(Debug)]
pub struct PatchDnsRecord<'a> {
    pub zone_identifier: &'a str,
    pub identifier: &'a str,
    pub params: PatchDnsRecordParams<'a>,
}

impl<'a> PatchDnsRecord<'a> {
    pub fn method(&self) -> (r: Method)
        ensures
            r == Method::Patch,
    {
        Method::Patch
    }

    pub fn path(&self) -> (r: String)
        ensures
            r@ == record_path(self.zone_identifier@, self.identifier@),
    {
        make_record_path(self.zone_identifier, self.identifier)
    }

    /// The parameters as a JSON body.
    pub fn body(&self) -> (r: Option<RequestBody>)
        ensures
            r matches Some(RequestBody::Json(t)) && t@ == object_text(patch_members(self.params)),
    {
        Some(RequestBody::Json(self.params.to_json()))
    }
}

/// Unset fields are omitted from the request and left unchanged.
#[derive(Debug)]
pub struct PatchDnsRecordParams<'a> {
    /// Time to live for DNS record. Value of 1 is 'automatic'
    pub ttl: Option<u32>,
    /// Whether the record is receiving the performance and security benefits of Cloudflare
    pub proxied: Option<bool>,
    /// DNS record name
    pub name: Option<&'a str>,
    /// Type of the DNS record together with its new value
    pub content: Option<DnsContent>,
    /// Comments or notes about the DNS record
    pub comment: Option<&'a str>,
    /// Custom tags for the DNS record. This field has no effect on DNS responses
    pub tags: Option<&'a [String]>,
}

/// JSON members of a patch: exactly the set fields, in declaration order,
/// with the record type and value in place of `content`.
pub open spec fn patch_members(p: PatchDnsRecordParams) -> Seq<(Seq<char>, Seq<char>)> {
    opt_number_member("ttl"@, opt_nat_u32(p.ttl)) + opt_bool_member("proxied"@, p.proxied)
        + opt_string_member("name"@, opt_str_view(p.name)) + match p.content {
        Some(c) => content_members(c),
        None => seq![],
    } + opt_string_member("comment"@, opt_str_view(p.comment)) + opt_string_list_member(
        "tags"@,
        opt_strings_view(p.tags),
    )
}

impl<'a> PatchDnsRecordParams<'a> {
    /// The JSON text sent to patch the record: only the set fields.
    pub fn to_json(&self) -> (r: String)
        ensures
            r@ == object_text(patch_members(*self)),
    {
        let mut w = JsonObjectWriter::new();
        write_opt_u32(&mut w, "ttl", self.ttl);
        write_opt_bool(&mut w, "proxied", self.proxied);
        write_opt_str(&mut w, "name", self.name);
        match &self.content {
            Some(c) => c.write_members(&mut w),
            None => {},
        }
        write_opt_str(&mut w, "comment", self.comment);
        write_opt_strings(&mut w, "tags", self.tags);
        assert(w.members() =~= patch_members(*self));
        w.finish()
    }
}

impl<'a> Default for PatchDnsRecordParams<'a> {
    /// No field set.
    fn default() -> (r: Self)
        ensures
            r.ttl is None,
            r.proxied is None,
            r.name is None,
            r.content is None,
            r.comment is None,
            r.tags is None,
    {
        PatchDnsRecordParams {
            ttl: None,
            proxied: None,
            name: None,
            content: None,
            comment: None,
            tags: None,
        }
    }
}

/// Field by which a listing is ordered.
#[derive(Clone, Copy, Debug, PartialEq, Eq, Structural)]
pub enum ListDnsRecordsOrder {
    Type,
    Name,
    Content,
    Ttl,
    Proxied,
}

/// Wire name of an order field: `type`, `name`, `content`, `ttl` or `proxied`.
pub open spec fn order_name(o: ListDnsRecordsOrder) -> Seq<char> {
    match o {
        ListDnsRecordsOrder::Type => "type"@,
        ListDnsRecordsOrder::Name => "name"@,
        ListDnsRecordsOrder::Content => "content"@,
        ListDnsRecordsOrder::Ttl => "ttl"@,
        ListDnsRecordsOrder::Proxied => "proxied"@,
    }
}

impl ListDnsRecordsOrder {
    /// The wire name, e.g. `ttl`.
    pub fn as_str(&self) -> (r: &'static str)
        ensures
            r@ == order_name(*self),
    {
        match self {
            ListDnsRecordsOrder::Type => "type",
            ListDnsRecordsOrder::Name => "name",
            ListDnsRecordsOrder::Content => "content",
            ListDnsRecordsOrder::Ttl => "ttl",
            ListDnsRecordsOrder::Proxied => "proxied",
        }
    }
}

#[derive(Debug)]
pub struct ListDnsRecordsParams {
    /// Filters on type and exact content together. To filter on type alone,
    /// use `type_filter` instead; setting both sends `type` twice.
    pub record_type: Option<DnsContent>,
    /// Filters on record type alone, e.g. `"MX"`.
    pub type_filter: Option<String>,
    pub name: Option<ListDnsRecordsParamsName>,
    pub content: Option<ListDnsRecordsParamsContent>,
    pub page: Option<u32>,
    pub per_page: Option<u32>,
    pub order: Option<ListDnsRecordsOrder>,
    pub direction: Option<OrderDirection>,
    pub search_match: Option<SearchMatch>,
}

#[derive(Debug)]
pub struct ListDnsRecordsParamsName {
    pub contains: Option<String>,
    pub starts_with: Option<String>,
    pub ends_with: Option<String>,
    pub exact: Option<String>,
}

#[derive(Debug)]
pub struct ListDnsRecordsParamsContent {
    pub contains: Option<String>,
    pub starts_with: Option<String>,
    pub ends_with: Option<String>,
    pub exact: Option<String>,
}

/// Query pairs of name filters: `name.contains`, `name.startswith`,
/// `name.endswith`, `name.exact`, those that are set.
pub open spec fn name_pairs(n: ListDnsRecordsParamsName) -> Seq<(Seq<char>, Seq<char>)> {
    opt_pair_of("name.contains"@, opt_string_view(n.contains)) + opt_pair_of(
        "name.startswith"@,
        opt_string_view(n.starts_with),
    ) + opt_pair_of("name.endswith"@, opt_string_view(n.ends_with)) + opt_pair_of(
        "name.exact"@,
        opt_string_view(n.exact),
    )
}

/// Query pairs of content filters: `content.contains`, `content.startswith`,
/// `content.endswith`, `content.exact`, those that are set.
pub open spec fn content_filter_pairs(n: ListDnsRecordsParamsContent) -> Seq<(Seq<char>, Seq<char>)> {
    opt_pair_of("content.contains"@, opt_string_view(n.contains)) + opt_pair_of(
        "content.startswith"@,
        opt_string_view(n.starts_with),
    ) + opt_pair_of("content.endswith"@, opt_string_view(n.ends_with)) + opt_pair_of(
        "content.exact"@,
        opt_string_view(n.exact),
    )
}

/// An optional number as decimal text.
pub open spec fn opt_decimal(n: Option<u32>) -> Option<Seq<char>> {
    match n {
        Some(v) => Some(decimal_text(v as nat)),
        None => None,
    }
}

/// The wire name of an optional order field.
pub open spec fn opt_order_name(o: Option<ListDnsRecordsOrder>) -> Option<Seq<char>> {
    match o {
        Some(v) => Some(order_name(v)),
        None => None,
    }
}

/// The wire name of an optional direction.
pub open spec fn opt_direction_name(d: Option<OrderDirection>) -> Option<Seq<char>> {
    match d {
        Some(v) => Some(direction_name(v)),
        None => None,
    }
}

/// The wire name of an optional search match.
pub open spec fn opt_search_match_name(m: Option<SearchMatch>) -> Option<Seq<char>> {
    match m {
        Some(v) => Some(search_match_name(v)),
        None => None,
    }
}

/// Query pairs of the filters of a listing, those that are set, in
/// declaration order: record type and content, type, name filters, content
/// filters.
pub open spec fn list_filter_pairs(p: ListDnsRecordsParams) -> Seq<(Seq<char>, Seq<char>)> {
    (match p.record_type {
        Some(c) => content_pairs(c),
        None => seq![],
    }) + opt_pair_of("type"@, opt_string_view(p.type_filter)) + (match p.name {
        Some(n) => name_pairs(n),
        None => seq![],
    }) + (match p.content {
        Some(c) => content_filter_pairs(c),
        None => seq![],
    })
}

/// Query pairs of the paging and ordering of a listing, those that are set:
/// `page`, `per_page`, `order`, `direction`, `match`.
pub open spec fn list_paging_pairs(p: ListDnsRecordsParams) -> Seq<(Seq<char>, Seq<char>)> {
    opt_pair_of("page"@, opt_decimal(p.page)) + opt_pair_of("per_page"@, opt_decimal(p.per_page))
        + opt_pair_of("order"@, opt_order_name(p.order)) + opt_pair_of(
        "direction"@,
        opt_direction_name(p.direction),
    ) + opt_pair_of("match"@, opt_search_match_name(p.search_match))
}

/// Query pairs of a listing: exactly the set parameters, in declaration order,
/// filters flattened into their own keys.
pub open spec fn list_pairs(p: ListDnsRecordsParams) -> Seq<(Seq<char>, Seq<char>)> {
    list_filter_pairs(p) + list_paging_pairs(p)
}

fn write_opt_pair_str(q: &mut QueryWriter, key: &str, v: Option<&str>)
    requires
        old(q).wf(),
    ensures
        final(q).wf(),
        final(q).pairs() == old(q).pairs() + opt_pair_of(key@, opt_str_view(v)),
{
    match v {
        Some(s) => q.pair(key, s),
        None => {},
    }
    assert(final(q).pairs() =~= old(q).pairs() + opt_pair_of(key@, opt_str_view(v)));
}

fn write_opt_pair_u32(q: &mut QueryWriter, key: &str, v: Option<u32>)
    requires
        old(q).wf(),
    ensures
        final(q).wf(),
        final(q).pairs() == old(q).pairs() + opt_pair_of(key@, opt_decimal(v)),
{
    match v {
        Some(n) => {
            let t = decimal_string(n as u64);
            q.pair(key, t.as_str());
        },
        None => {},
    }
    assert(final(q).pairs() =~= old(q).pairs() + opt_pair_of(key@, opt_decimal(v)));
}

impl ListDnsRecordsParamsName {
    fn write_pairs(&self, q: &mut QueryWriter)
        requires
            old(q).wf(),
        ensures
            final(q).wf(),
            final(q).pairs() == old(q).pairs() + name_pairs(*self),
    {
        let ghost start = q.pairs();
        q.opt_pair("name.contains", &self.contains);
        q.opt_pair("name.startswith", &self.starts_with);
        q.opt_pair("name.endswith", &self.ends_with);
        q.opt_pair("name.exact", &self.exact);
        assert(q.pairs() =~= start + name_pairs(*self));
    }
}

impl ListDnsRecordsParamsContent {
    fn write_pairs(&self, q: &mut QueryWriter)
        requires
            old(q).wf(),
        ensures
            final(q).wf(),
            final(q).pairs() == old(q).pairs() + content_filter_pairs(*self),
    {
        let ghost start = q.pairs();
        q.opt_pair("content.contains", &self.contains);
        q.opt_pair("content.startswith", &self.starts_with);
        q.opt_pair("content.endswith", &self.ends_with);
        q.opt_pair("content.exact", &self.exact);
        assert(q.pairs() =~= start + content_filter_pairs(*self));
    }
}

impl ListDnsRecordsParams {
    #[verifier::spinoff_prover]
    #[verifier::rlimit(30)]
    fn write_filter_pairs(&self, q: &mut QueryWriter)
        requires
            old(q).wf(),
        ensures
            final(q).wf(),
            final(q).pairs() == old(q).pairs() + list_filter_pairs(*self),
    {
        let ghost start = q.pairs();
        match &self.record_type {
            Some(c) => c.write_pairs(q),
            None => {},
        }
        q.opt_pair("type", &self.type_filter);
        match &self.name {
            Some(n) => n.write_pairs(q),
            None => {},
        }
        match &self.content {
            Some(c) => c.write_pairs(q),
            None => {},
        }
        assert(q.pairs() =~= start + list_filter_pairs(*self));
    }

    fn write_paging_pairs(&self, q: &mut QueryWriter)
        requires
            old(q).wf(),
        ensures
            final(q).wf(),
            final(q).pairs() == old(q).pairs() + list_paging_pairs(*self),
    {
        let ghost start = q.pairs();
        write_opt_pair_u32(q, "page", self.page);
        write_opt_pair_u32(q, "per_page", self.per_page);
        let order = match self.order {
            Some(o) => Some(o.as_str()),
            None => None,
        };
        write_opt_pair_str(q, "order", order);
        let direction = match self.direction {
            Some(d) => Some(d.as_str()),
            None => None,
        };
        write_opt_pair_str(q, "direction", direction);
        let search_match = match self.search_match {
            Some(m) => Some(m.as_str()),
            None => None,
        };
        write_opt_pair_str(q, "match", search_match);
        assert(q.pairs() =~= start + list_paging_pairs(*self));
    }

    /// The URL query of the set parameters: none when no parameter is set.
    pub fn query(&self) -> (r: Option<String>)
        ensures
            match r {
                Some(s) => query_of(list_pairs(*self)) == Some(s@),
                None => query_of(list_pairs(*self)) is None,
            },
    {
        let mut q = QueryWriter::new();
        self.write_filter_pairs(&mut q);
        self.write_paging_pairs(&mut q);
        assert(q.pairs() =~= list_pairs(*self));
        q.finish()
    }
}

impl Default for ListDnsRecordsParams {
    /// No parameter set.
    fn default() -> (r: Self)
        ensures
            r.record_type is None,
            r.type_filter is None,
            r.name is None,
            r.content is None,
            r.page is None,
            r.per_page is None,
            r.order is None,
            r.direction is None,
            r.search_match is None,
    {
        ListDnsRecordsParams {
            record_type: None,
            type_filter: None,
            name: None,
            content: None,
            page: None,
            per_page: None,
            order: None,
            direction: None,
            search_match: None,
        }
    }
}

impl Default for ListDnsRecordsParamsName {
    /// No filter set.
    fn default() -> (r: Self)
        ensures
            r.contains is None,
            r.starts_with is None,
            r.ends_with is None,
            r.exact is None,
    {
        ListDnsRecordsParamsName { contains: None, starts_with: None, ends_with: None, exact: None }
    }
}

impl Default for ListDnsRecordsParamsContent {
    /// No filter set.
    fn default() -> (r: Self)
        ensures
            r.contains is None,
            r.starts_with is None,
            r.ends_with is None,
            r.exact is None,
    {
        ListDnsRecordsParamsContent {
            contains: None,
            starts_with: None,
            ends_with: None,
            exact: None,
        }
    }
}

/// Filtering on a record type and content together and on a type alone sends
/// the key `type` twice.
pub proof fn lemma_type_sent_twice(p: ListDnsRecordsParams)
    requires
        p.record_type is Some,
        p.type_filter is Some,
    ensures
        exists|i: int, j: int|
            0 <= i < j < list_pairs(p).len() && list_pairs(p)[i].0 == "type"@ && list_pairs(p)[j].0
                == "type"@,
{
    let c = p.record_type->0;
    let pairs = list_pairs(p);
    let first = content_pairs(c);
    assert(list_filter_pairs(p) =~= first + seq![("type"@, p.type_filter->0@)] + (match p.name {
        Some(n) => name_pairs(n),
        None => seq![],
    }) + (match p.content {
        Some(c) => content_filter_pairs(c),
        None => seq![],
    }));
    assert(pairs[0] == first[0]);
    assert(pairs[first.len() as int] == ("type"@, p.type_filter->0@));
}

/// The name filters send nothing when none is set.
proof fn lemma_name_pairs_len(n: ListDnsRecordsParamsName)
    ensures
        (name_pairs(n).len() == 0) == (n.contains is None && n.starts_with is None
            && n.ends_with is None && n.exact is None),
{
}

/// The content filters send nothing when none is set.
proof fn lemma_content_filter_pairs_len(n: ListDnsRecordsParamsContent)
    ensures
        (content_filter_pairs(n).len() == 0) == (n.contains is None && n.starts_with is None
            && n.ends_with is None && n.exact is None),
{
}

/// A listing has no query exactly when no parameter is set (a filter struct
/// with no field set counts as unset).
pub proof fn lemma_list_query_absent_iff_unset(p: ListDnsRecordsParams)
    ensures
        (query_of(list_pairs(p)) is None) == (p.record_type is None && p.type_filter is None
            && (match p.name {
            Some(n) => n.contains is None && n.starts_with is None && n.ends_with is None
                && n.exact is None,
            None => true,
        }) && (match p.content {
            Some(c) => c.contains is None && c.starts_with is None && c.ends_with is None
                && c.exact is None,
            None => true,
        }) && p.page is None && p.per_page is None && p.order is None && p.direction is None
            && p.search_match is None),
{
    match p.name {
        Some(n) => lemma_name_pairs_len(n),
        None => {},
    }
    match p.content {
        Some(c) => lemma_content_filter_pairs_len(c),
        None => {},
    }
}

/// A patch with no field set sends the empty object `{}`.
pub proof fn lemma_empty_patch_sends_nothing(p: PatchDnsRecordParams)
    requires
        p.ttl is None,
        p.proxied is None,
        p.name is None,
        p.content is None,
        p.comment is None,
        p.tags is None,
    ensures
        patch_members(p).len() == 0,
        object_text(patch_members(p)) == seq!['{', '}'],
{
    assert(patch_members(p) =~= Seq::<(Seq<char>, Seq<char>)>::empty());
    assert(object_text(patch_members(p)) =~= seq!['{', '}']);
}

/// A record's JSON members carry exactly what `record_type` and `content`
/// report: first `type`, then `content`.
pub proof fn lemma_members_agree_with_accessors(c: DnsContent)
    ensures
        content_members(c)[0] == ("type"@, json_string_text(record_type_name(c))),
        content_members(c)[1] == ("content"@, json_string_text(content_text(c))),
        content_pairs(c)[0] == ("type"@, record_type_name(c)),
        content_pairs(c)[1] == ("content"@, content_text(c)),
{
}

/// Extra Cloudflare-specific information about the record
#[derive(Debug)]
pub struct Meta {}

/// The `content` field of a record as it arrived: absent, a string, or some
/// other JSON value.
#[derive(Debug)]
pub enum RecordContent {
    Absent,
    Text(String),
    NotText,
}

/// The fields of a record that decide its type and value: the `type` field
/// where it is a string, the `content` field, and the `priority` field where
/// it is a number that fits in 16 bits.
#[derive(Debug)]
pub struct RecordFields {
    pub record_type: Option<String>,
    pub content: RecordContent,
    pub priority: Option<u16>,
}

/// A type name that has a variant of its own.
pub open spec fn is_modelled_type(t: Seq<char>) -> bool {
    ||| t == "A"@
    ||| t == "AAAA"@
    ||| t == "CAA"@
    ||| t == "CNAME"@
    ||| t == "NS"@
    ||| t == "MX"@
    ||| t == "PTR"@
    ||| t == "TXT"@
    ||| t == "SRV"@
}

/// The variant that a type name other than `A` and `AAAA` selects, where
/// its fields are all there: a string content, and a priority as well for
/// MX.
pub open spec fn tagged_content(t: Seq<char>, f: RecordFields) -> Option<DnsContent> {
    match f.content {
        RecordContent::Text(s) => if t == "CAA"@ {
            Some(DnsContent::CAA { content: s })
        } else if t == "CNAME"@ {
            Some(DnsContent::CNAME { content: s })
        } else if t == "NS"@ {
            Some(DnsContent::NS { content: s })
        } else if t == "PTR"@ {
            Some(DnsContent::PTR { content: s })
        } else if t == "TXT"@ {
            Some(DnsContent::TXT { content: s })
        } else if t == "SRV"@ {
            Some(DnsContent::SRV { content: s })
        } else if t == "MX"@ {
            match f.priority {
                Some(p) => Some(DnsContent::MX { content: s, priority: p }),
                None => None,
            }
        } else {
            None
        },
        _ => None,
    }
}

/// The IPv4 address that a record's content is, if it is text and one.
pub open spec fn content_ipv4(c: RecordContent) -> Option<Seq<u8>> {
    match c {
        RecordContent::Text(s) => parse_v4(s@),
        _ => None,
    }
}

/// The IPv6 address that a record's content is, if it is text and one.
pub open spec fn content_ipv6(c: RecordContent) -> Option<Seq<u16>> {
    match c {
        RecordContent::Text(s) => parse_v6(s@),
        _ => None,
    }
}

/// How a record's fields decode: no type string, no record; an `A` or
/// `AAAA` record whose content parses as an address of its kind, that
/// address; otherwise the variant the type selects where its fields fit, and
/// else `Other` with the type name and the content (empty where there is
/// none); a content that is not a string then fails.
pub open spec fn decodes_to(f: RecordFields, r: Option<DnsContent>) -> bool {
    match f.record_type {
        None => r is None,
        Some(t) => if t@ == "A"@ && content_ipv4(f.content) is Some {
            r matches Some(DnsContent::A { content }) && Some(content.octets@) == content_ipv4(f.content)
        } else if t@ == "AAAA"@ && content_ipv6(f.content) is Some {
            r matches Some(DnsContent::AAAA { content }) && Some(content.segments@) == content_ipv6(f.content)
        } else {
            match tagged_content(t@, f) {
                Some(c) => r == Some(c),
                None => match f.content {
                    RecordContent::Absent => r matches Some(DnsContent::Other { record_type, content })
                        && record_type == t && content@.len() == 0,
                    RecordContent::Text(s) => r == Some(DnsContent::Other { record_type: t, content: s }),
                    RecordContent::NotText => r is None,
                },
            }
        },
    }
}

impl DnsContent {
    /// The record type and value that a record's fields decode to; `None`
    /// where they do not decode. An `A` or `AAAA` record's content is parsed
    /// as an address as std's `Ipv4Addr` and `Ipv6Addr` parse it.
    pub fn from_fields(f: RecordFields) -> (r: Option<DnsContent>)
        ensures
            decodes_to(f, r),
    {
        let ghost g = f;
        let RecordFields { record_type, content, priority } = f;
        let t = match record_type {
            None => {
                return None;
            },
            Some(t) => t,
        };
        let is_a = str_equal(t.as_str(), "A");
        let is_aaaa = str_equal(t.as_str(), "AAAA");
        match &content {
            RecordContent::Text(s) => {
                if is_a {
                    match parse_ipv4(s.as_str()) {
                        Some(a) => {
                            return Some(DnsContent::A { content: a });
                        },
                        None => {},
                    }
                } else if is_aaaa {
                    match parse_ipv6(s.as_str()) {
                        Some(a) => {
                            return Some(DnsContent::AAAA { content: a });
                        },
                        None => {},
                    }
                }
            },
            _ => {},
        }
        proof {
            lemma_type_names_differ();
        }
        assert(is_a || is_aaaa ==> tagged_content(t@, g) is None);
        match content {
            RecordContent::Absent => Some(DnsContent::Other { record_type: t, content: String::new() }),
            RecordContent::NotText => None,
            RecordContent::Text(s) => {
                if is_a || is_aaaa {
                    Some(DnsContent::Other { record_type: t, content: s })
                } else if str_equal(t.as_str(), "CAA") {
                    Some(DnsContent::CAA { content: s })
                } else if str_equal(t.as_str(), "CNAME") {
                    Some(DnsContent::CNAME { content: s })
                } else if str_equal(t.as_str(), "NS") {
                    Some(DnsContent::NS { content: s })
                } else if str_equal(t.as_str(), "PTR") {
                    Some(DnsContent::PTR { content: s })
                } else if str_equal(t.as_str(), "TXT") {
                    Some(DnsContent::TXT { content: s })
                } else if str_equal(t.as_str(), "SRV") {
                    Some(DnsContent::SRV { content: s })
                } else if str_equal(t.as_str(), "MX") {
                    match priority {
                        Some(p) => Some(DnsContent::MX { content: s, priority: p }),
                        None => Some(DnsContent::Other { record_type: t, content: s }),
                    }
                } else {
                    Some(DnsContent::Other { record_type: t, content: s })
                }
            },
        }
    }
}

/// Records of a type without a variant of its own decode as `Other`, with the
/// type name as reported and the content (empty where there is none), rather
/// than failing.
pub proof fn lemma_unmodelled_types_decode_as_other(f: RecordFields, r: Option<DnsContent>)
    requires
        f.record_type is Some,
        !is_modelled_type(f.record_type->0@),
        !(f.content is NotText),
        decodes_to(f, r),
    ensures
        r matches Some(DnsContent::Other { record_type, content }) && record_type@ == f.record_type->0@
            && content@ == match f.content {
            RecordContent::Text(s) => s@,
            _ => Seq::<char>::empty(),
        },
{
}

/// The type names that have a variant of their own, told apart by length
/// and first letter.
pub(crate) proof fn lemma_type_names_differ()
    ensures
        "A"@.len() == 1 && "A"@[0] == 'A',
        "AAAA"@.len() == 4 && "AAAA"@[0] == 'A',
        "CAA"@.len() == 3 && "CAA"@[0] == 'C',
        "CNAME"@.len() == 5 && "CNAME"@[0] == 'C',
        "NS"@.len() == 2 && "NS"@[0] == 'N',
        "MX"@.len() == 2 && "MX"@[0] == 'M',
        "PTR"@.len() == 3 && "PTR"@[0] == 'P',
        "TXT"@.len() == 3 && "TXT"@[0] == 'T',
        "SRV"@.len() == 3 && "SRV"@[0] == 'S',
{
    reveal_strlit("A");
    reveal_strlit("AAAA");
    reveal_strlit("CAA");
    reveal_strlit("CNAME");
    reveal_strlit("NS");
    reveal_strlit("MX");
    reveal_strlit("PTR");
    reveal_strlit("TXT");
    reveal_strlit("SRV");
}

/// Which variant a value is, by its place in the declaration.
pub open spec fn variant_index(c: DnsContent) -> int {
    match c {
        DnsContent::A { .. } => 0,
        DnsContent::AAAA { .. } => 1,
        DnsContent::CAA { .. } => 2,
        DnsContent::CNAME { .. } => 3,
        DnsContent::NS { .. } => 4,
        DnsContent::MX { .. } => 5,
        DnsContent::PTR { .. } => 6,
        DnsContent::TXT { .. } => 7,
        DnsContent::SRV { .. } => 8,
        DnsContent::Other { .. } => 9,
    }
}

/// The fields that a record value is sent with: its type name, its content
/// text, and its priority where it has one.
pub open spec fn sent_fields(c: DnsContent, f: RecordFields) -> bool {
    &&& f.record_type matches Some(t) && t@ == record_type_name(c)
    &&& f.content matches RecordContent::Text(s) && s@ == content_text(c)
    &&& opt_nat_u16(f.priority) == content_priority(c)
}

/// An `Other` value of type `AAAA` whose content parses as an IPv6 address
/// but is not that address's textual form (e.g. `0:0:0:0:0:0:0:1`): it
/// decodes to the address, whose text differs. (IPv4 text parses in its
/// textual form only, so `A` has no such value.)
pub open spec fn rewritten_address(c: DnsContent) -> bool {
    match c {
        DnsContent::Other { record_type, content } => record_type@ == "AAAA"@ && (parse_v6(content@) matches Some(
            a,
        ) && ipv6_text(a) != content@),
        _ => false,
    }
}

/// Decoding gives back what was sent: the fields a record value is sent with
/// decode to a value with the same type name, content text and priority. It
/// stays the same variant, except that an `Other` value whose type name has a
/// variant of its own decodes to that variant where its content fits. An
/// `Other` value of type `AAAA` whose content is an address written otherwise
/// than its textual form comes back with that form, so it is left out.
pub proof fn lemma_decode_after_encode(c: DnsContent, f: RecordFields)
    requires
        sent_fields(c, f),
        !rewritten_address(c),
    ensures
        forall|r: Option<DnsContent>| #[trigger] decodes_to(f, r) ==> (r matches Some(d) && record_type_name(d)
            == record_type_name(c) && content_text(d) == content_text(c) && content_priority(d)
            == content_priority(c) && (!is_modelled_type(record_type_name(c)) ==> d is Other)
            && (!(c is Other) ==> variant_index(d) == variant_index(c))),
{
    lemma_type_names_differ();
    let t = f.record_type->0;
    let s = f.content->Text_0;
    assert forall|r: Option<DnsContent>| #[trigger] decodes_to(f, r) implies (r matches Some(d)
        && record_type_name(d) == record_type_name(c) && content_text(d) == content_text(c)
        && content_priority(d) == content_priority(c) && (!is_modelled_type(record_type_name(c))
        ==> d is Other) && (!(c is Other) ==> variant_index(d) == variant_index(c))) by {
        match c {
            DnsContent::A { content } => {
                lemma_parse_ipv4_text(content.octets@);
                assert(content_ipv4(f.content) == Some(content.octets@));
                let d = r->0;
                assert(d->A_content.octets@ == content.octets@);
            },
            DnsContent::AAAA { content } => {
                lemma_parse_ipv6_text(content.segments@);
                assert(t@ != "A"@);
                assert(content_ipv6(f.content) == Some(content.segments@));
                let d = r->0;
                assert(d->AAAA_content.segments@ == content.segments@);
            },
            DnsContent::MX { priority, .. } => {
                assert(tagged_content(t@, f) == Some(DnsContent::MX { content: s, priority }));
            },
            DnsContent::Other { record_type, content } => {
                if t@ == "A"@ && content_ipv4(f.content) is Some {
                    lemma_parse_ipv4_canonical(s@);
                } else if t@ == "AAAA"@ && content_ipv6(f.content) is Some {
                    let a = parse_v6(s@)->0;
                    assert(ipv6_text(a) == content@);
                } else if tagged_content(t@, f) is Some {
                } else {
                }
            },
            _ => {
                assert(tagged_content(t@, f) is Some);
            },
        }
    }
}

/// A point in time in UTC: seconds since the Unix epoch and the nanoseconds
/// within that second.
#[derive(Clone, Copy, Debug, PartialEq, Eq, Structural)]
pub struct UtcTimestamp {
    pub seconds: i64,
    pub nanoseconds: u32,
}

/// A DNS record as the API reports it.
#[derive(Debug)]
pub struct DnsRecord {
    /// Extra Cloudflare-specific information about the record
    pub meta: Meta,
    /// DNS record name
    pub name: String,
    /// Time to live for DNS record. Value of 1 is 'automatic'
    pub ttl: u32,
    /// When the record was last modified
    pub modified_on: UtcTimestamp,
    /// When the record was created
    pub created_on: UtcTimestamp,
    /// Whether this record can be modified/deleted (true means it's managed by Cloudflare)
    pub proxiable: bool,
    /// Type of the DNS record that also holds the record value
    pub content: DnsContent,
    /// DNS record identifier tag
    pub id: String,
    /// Whether the record is receiving the performance and security benefits of Cloudflare
    pub proxied: bool,
    /// Comments or notes about the DNS record
    pub comment: Option<String>,
    /// Custom tags for the DNS record. This field has no effect on DNS responses
    pub tags: Vec<String>,
    /// Structured fields for record types that have them (SRV, CAA, HTTPS, ...)
    pub data: Option<JsonValue>,
}

#[derive(Debug)]
pub struct DeleteDnsRecordResponse {
    /// DNS record identifier tag
    pub id: String,
}

} // verus!
