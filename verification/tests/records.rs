use ddns_gcloud::address::ResolvedAddress;
use ddns_gcloud::records::{
    build_change, find_existing, reconcile, with_operation_id, Change, RecordSet,
};

fn addr(s: &str) -> ResolvedAddress {
    ResolvedAddress::parse(s).unwrap()
}

fn record(name: &str, type_: &str, ttl: i32, data: &[&str]) -> RecordSet {
    RecordSet {
        name: Some(name.to_string()),
        type_: Some(type_.to_string()),
        ttl: Some(ttl),
        rrdatas: Some(data.iter().map(|d| d.to_string()).collect()),
        kind: Some("dns#resourceRecordSet".to_string()),
        signature_rrdatas: None,
    }
}

fn fresh(name: &str, type_: &str, ttl: i32, address: &str) -> RecordSet {
    RecordSet {
        name: Some(name.to_string()),
        type_: Some(type_.to_string()),
        ttl: Some(ttl),
        rrdatas: Some(vec![address.to_string()]),
        kind: Some("dns#resourceRecordSet".to_string()),
        signature_rrdatas: Some(vec![]),
    }
}

#[test]
fn empty_listing_adds_only() {
    let existing = reconcile(&Some(vec![]), "www.example.com.", "A");
    assert_eq!(existing, None);
    let change = build_change(existing, "www.example.com.", "A", 300, &addr("203.0.113.5"));
    assert_eq!(
        change,
        Change {
            additions: Some(vec![fresh("www.example.com.", "A", 300, "203.0.113.5")]),
            deletions: None,
            client_operation_id: None,
        }
    );
}

#[test]
fn absent_listing_is_empty() {
    assert_eq!(reconcile(&None, "www.example.com.", "A"), None);
}

#[test]
fn existing_record_is_replaced() {
    let old = RecordSet {
        name: Some("www.example.com.".to_string()),
        type_: Some("A".to_string()),
        ttl: None,
        rrdatas: Some(vec!["203.0.113.1".to_string()]),
        kind: None,
        signature_rrdatas: None,
    };
    let listing = Some(vec![old.clone()]);
    let existing = reconcile(&listing, "www.example.com.", "A");
    assert_eq!(existing, Some(old.clone()));
    let change = build_change(existing, "www.example.com.", "A", 1, &addr("203.0.113.9"));
    assert_eq!(change.deletions, Some(vec![old]));
    assert_eq!(change.additions, Some(vec![fresh("www.example.com.", "A", 1, "203.0.113.9")]));
    assert_eq!(change.client_operation_id, None);
}

#[test]
fn new_ttl_may_differ_from_old() {
    let old = record("www.example.com.", "A", 3600, &["203.0.113.1"]);
    let change = build_change(Some(old.clone()), "www.example.com.", "A", 60, &addr("203.0.113.9"));
    assert_eq!(change.deletions.unwrap()[0].ttl, Some(3600));
    assert_eq!(change.additions.unwrap()[0].ttl, Some(60));
}

#[test]
fn name_or_type_alone_does_not_match() {
    let listing = vec![
        record("www.example.com.", "AAAA", 300, &["2001:db8::1"]),
        record("mail.example.com.", "A", 300, &["203.0.113.2"]),
        record("www.example.com", "A", 300, &["203.0.113.3"]),
        record("WWW.example.com.", "A", 300, &["203.0.113.4"]),
        RecordSet {
            name: Some("www.example.com.".to_string()),
            type_: None,
            ttl: None,
            rrdatas: None,
            kind: None,
            signature_rrdatas: None,
        },
        RecordSet {
            name: None,
            type_: Some("A".to_string()),
            ttl: None,
            rrdatas: None,
            kind: None,
            signature_rrdatas: None,
        },
    ];
    assert_eq!(find_existing(&listing, "www.example.com.", "A"), None);
    assert_eq!(reconcile(&Some(listing), "www.example.com.", "A"), None);
}

#[test]
fn first_of_several_matches_wins() {
    let listing = vec![
        record("a.example.com.", "A", 300, &["203.0.113.1"]),
        record("www.example.com.", "A", 300, &["203.0.113.2"]),
        record("www.example.com.", "A", 600, &["203.0.113.3"]),
    ];
    assert_eq!(find_existing(&listing, "www.example.com.", "A"), Some(1));
    assert_eq!(find_existing(&listing, "a.example.com.", "A"), Some(0));
    let found = reconcile(&Some(listing.clone()), "www.example.com.", "A");
    assert_eq!(found, Some(listing[1].clone()));
}

#[test]
fn is_for_compares_both_fields() {
    let r = record("www.example.com.", "A", 300, &["203.0.113.2"]);
    assert!(r.is_for("www.example.com.", "A"));
    assert!(!r.is_for("www.example.com.", "TXT"));
    assert!(!r.is_for("example.com.", "A"));
}

#[test]
fn clone_keeps_every_field() {
    let mut r = record("www.example.com.", "A", 300, &["203.0.113.2", "203.0.113.3"]);
    r.signature_rrdatas = Some(vec!["sig".to_string()]);
    assert_eq!(r.clone(), r);
}

#[test]
fn operation_id_is_attached() {
    let change = build_change(None, "www.example.com.", "A", 300, &addr("203.0.113.5"));
    let tagged = with_operation_id(change, Some("run-17".to_string()));
    assert_eq!(tagged.client_operation_id, Some("run-17".to_string()));
    assert_eq!(tagged.additions, Some(vec![fresh("www.example.com.", "A", 300, "203.0.113.5")]));
    assert_eq!(tagged.deletions, None);
    let plain = with_operation_id(tagged, None);
    assert_eq!(plain.client_operation_id, None);
}
