use cfddns::cloudflare::{bearer_value, prepare_update, record_url, records_url, DnsError, Record};
use cfddns::config::Config;
use cfddns::ip::Ip;

#[test]
fn new_a_record_has_the_fixed_policy_fields() {
    let r = Record::new_a("a.example.com", "1.2.3.4");
    assert_eq!(r.id, None);
    assert_eq!(r.kind, "A");
    assert_eq!(r.name, "a.example.com");
    assert_eq!(r.content, "1.2.3.4");
    assert_eq!(r.ttl, 1);
    assert!(!r.proxied);
}

#[test]
fn prepare_update_splits_identifier_from_body() {
    let r = Record {
        id: Some(String::from("abc123")),
        kind: String::from("A"),
        name: String::from("a.example.com"),
        content: String::from("1.2.3.4"),
        ttl: 1,
        proxied: false,
    };
    let (id, body) = prepare_update(r).unwrap();
    assert_eq!(id, "abc123");
    assert_eq!(body.id, None);
    assert_eq!(body.kind, "A");
    assert_eq!(body.name, "a.example.com");
    assert_eq!(body.content, "1.2.3.4");
    assert_eq!(body.ttl, 1);
    assert!(!body.proxied);
}

#[test]
fn prepare_update_rejects_a_record_without_identifier() {
    let r = Record {
        id: None,
        kind: String::from("A"),
        name: String::from("a.example.com"),
        content: String::from("1.2.3.4"),
        ttl: 1,
        proxied: false,
    };
    let e = prepare_update(r).unwrap_err();
    assert_eq!(e, DnsError::MissingRecordId);
    assert_eq!(e.message(), "Unable to get id of DNS Record");
}

#[test]
fn urls_and_header_are_built_exactly() {
    let collection = records_url("https://api.cloudflare.com/client/v4/", "zone1");
    assert_eq!(
        collection,
        "https://api.cloudflare.com/client/v4//zones/zone1/dns_records"
    );
    let one = record_url(&collection, "rec9");
    assert_eq!(
        one,
        "https://api.cloudflare.com/client/v4//zones/zone1/dns_records/rec9"
    );
    assert_eq!(bearer_value("token123"), "Bearer token123");
}

#[test]
fn interval_defaults_to_five_minutes() {
    let absent = Config {
        api_token: String::from("t"),
        backtrace: None,
        domains: Vec::new(),
        interval: None,
        zone_id: String::from("z"),
    };
    assert_eq!(absent.interval_secs(), 300);
    let given = Config {
        api_token: String::from("t"),
        backtrace: None,
        domains: Vec::new(),
        interval: Some(60),
        zone_id: String::from("z"),
    };
    assert_eq!(given.interval_secs(), 60);
}

#[test]
fn ip_response_carries_the_address() {
    let answer = Ip { ip: String::from("1.2.3.4") };
    assert_eq!(answer.into_ip(), "1.2.3.4");
}

#[test]
fn cloned_record_matches_the_original() {
    let r = Record {
        id: Some(String::from("1")),
        kind: String::from("A"),
        name: String::from("a.example.com"),
        content: String::from("9.9.9.9"),
        ttl: 120,
        proxied: true,
    };
    let c = r.clone();
    assert_eq!(c.id, r.id);
    assert_eq!(c.kind, r.kind);
    assert_eq!(c.name, r.name);
    assert_eq!(c.content, r.content);
    assert_eq!(c.ttl, r.ttl);
    assert_eq!(c.proxied, r.proxied);
}
