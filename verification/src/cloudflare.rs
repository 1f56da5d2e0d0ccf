//! The data the DNS provider exchanges with the agent, and the pure parts of
//! the provider client: building record bodies, request URLs and the
//! authorization header value, and preparing a record for an update call.
//! The HTTP transport itself lives outside the library.

use vstd::prelude::*;
use vstd::string::StringExecFns;

verus! {

/// A DNS record as the provider reports or accepts it. The identifier is
/// absent only on records not yet created remotely.
#[derive(Debug)]
pub struct Record {
    pub id: Option<String>,
    pub kind: String,
    pub name: String,
    pub content: String,
    pub ttl: i16,
    pub proxied: bool,
}

/// The mathematical model of a [`Record`]: every field as a plain value.
#[verifier::ext_equal]
pub ghost struct RecordView {
    pub id: Option<Seq<char>>,
    pub kind: Seq<char>,
    pub name: Seq<char>,
    pub content: Seq<char>,
    pub ttl: int,
    pub proxied: bool,
}

impl View for Record {
    type V = RecordView;

    open spec fn view(&self) -> RecordView {
        RecordView {
            id: match self.id {
                Some(s) => Some(s@),
                None => None,
            },
            kind: self.kind@,
            name: self.name@,
            content: self.content@,
            ttl: self.ttl as int,
            proxied: self.proxied,
        }
    }
}

impl Clone for Record {
    fn clone(&self) -> (r: Self)
        ensures
            r == *self,
    {
        Record {
            id: match &self.id {
                Some(s) => Some(s.clone()),
                None => None,
            },
            kind: self.kind.clone(),
            name: self.name.clone(),
            content: self.content.clone(),
            ttl: self.ttl,
            proxied: self.proxied,
        }
    }
}

/// Paging data the provider attaches to a listing response.
#[derive(Debug, Clone)]
pub struct QueryInfo {
    pub page: i16,
    pub per_page: i16,
    pub count: i16,
    pub total_count: i16,
}

/// The provider's listing response: the records of the zone, a success flag,
/// and paging data.
#[derive(Debug)]
pub struct Records {
    pub result: Vec<Record>,
    pub success: bool,
    pub result_info: QueryInfo,
}

/// A local precondition violation: the provider was asked to update a record
/// that carries no identifier.
#[derive(Clone, Copy, Debug, PartialEq, Eq, Structural)]
pub enum DnsError {
    MissingRecordId,
}

impl DnsError {
    /// A human-readable description of the failure.
    pub fn message(&self) -> (m: &'static str)
        ensures
            m@ == "Unable to get id of DNS Record"@,
    {
        "Unable to get id of DNS Record"
    }
}

/// The record body submitted when a desired name is created: an address
/// record for `name` pointing at `ip`, with the fixed time-to-live policy
/// value and proxying disabled.
pub open spec fn a_record_view(name: Seq<char>, ip: Seq<char>) -> RecordView {
    RecordView {
        id: None,
        kind: "A"@,
        name: name,
        content: ip,
        ttl: 1,
        proxied: false,
    }
}

/// The same record with its identifier removed, as an update call submits it
/// (the identifier travels in the request target, not the body).
pub open spec fn strip_id(r: RecordView) -> RecordView {
    RecordView { id: None, ..r }
}

impl Record {
    /// Builds the address record submitted when `record_name` is created to
    /// point at `ip_address`.
    pub fn new_a(record_name: &str, ip_address: &str) -> (r: Record)
        ensures
            r@ == a_record_view(record_name@, ip_address@),
    {
        Record {
            id: None,
            kind: String::from_str("A"),
            name: String::from_str(record_name),
            content: String::from_str(ip_address),
            ttl: 1,
            proxied: false,
        }
    }
}

/// Splits a record into the identifier addressing the update call and the
/// body submitted with it. A record without an identifier cannot be updated:
/// that is a precondition violation, reported before any call is made.
pub fn prepare_update(record: Record) -> (r: Result<(String, Record), DnsError>)
    ensures
        record@.id is Some ==> {
            &&& r is Ok
            &&& r->Ok_0.0@ == record@.id->0
            &&& r->Ok_0.1@ == strip_id(record@)
        },
        record@.id is None ==> r == Result::<(String, Record), DnsError>::Err(
            DnsError::MissingRecordId,
        ),
{
    let Record { id, kind, name, content, ttl, proxied } = record;
    match id {
        None => Err(DnsError::MissingRecordId),
        Some(record_id) => Ok(
            (record_id, Record { id: None, kind, name, content, ttl, proxied }),
        ),
    }
}

/// The URL of the zone's record collection: list with `GET`, create with
/// `POST`.
pub fn records_url(endpoint: &str, zone_id: &str) -> (url: String)
    ensures
        url@ == endpoint@ + "/zones/"@ + zone_id@ + "/dns_records"@,
{
    String::from_str(endpoint).concat("/zones/").concat(zone_id).concat("/dns_records")
}

/// The URL addressing one record of the collection: update with `PUT`.
pub fn record_url(collection_url: &str, record_id: &str) -> (url: String)
    ensures
        url@ == collection_url@ + "/"@ + record_id@,
{
    String::from_str(collection_url).concat("/").concat(record_id)
}

/// The value of the `Authorization` header the provider client sends.
pub fn bearer_value(token: &str) -> (v: String)
    ensures
        v@ == "Bearer "@ + token@,
{
    String::from_str("Bearer ").concat(token)
}

} // verus!
