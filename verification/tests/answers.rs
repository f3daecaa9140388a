use lab_name_server::{
    parse_name, Config, Question, RecordCfg, RecordType, Request, ResourceRecord, ResponseCode,
    Soa, Zone, ZoneStore,
};

fn soa() -> Soa {
    Soa {
        mname: "ns1.example.test.".to_string(),
        rname: "hostmaster.example.test.".to_string(),
        serial: 1,
        refresh: 3600,
        retry: 600,
        expire: 86400,
        minimum: 300,
    }
}

fn record(name: &str, rtype: &str, value: &str) -> RecordCfg {
    RecordCfg {
        name: name.to_string(),
        record_type: rtype.to_string(),
        value: Some(value.to_string()),
        ttl: None,
        preference: None,
    }
}

fn example_zone(records: Vec<RecordCfg>) -> Zone {
    Zone {
        origin: "example.test.".to_string(),
        ttl: Some(300),
        soa: soa(),
        ns: vec!["ns1.example.test.".to_string()],
        records,
    }
}

fn store_from(default_ttl: Option<u32>, records: Vec<RecordCfg>) -> ZoneStore {
    let cfg = Config {
        listen: None,
        upstream: None,
        default_ttl,
        zones: vec![example_zone(records)],
    };
    ZoneStore::from_config(&cfg).expect("build store")
}

fn make_query_msg(name: &str, rtype: RecordType) -> Request {
    let qname = parse_name(name);
    Request {
        id: 0,
        recursion_desired: false,
        question: Some(Question { name: qname, qtype: rtype.code(), qclass: 1 }),
    }
}

fn has_record_type(records: &[ResourceRecord], rt: RecordType) -> bool {
    records.iter().any(|r| r.rdata.record_type() == rt)
}

#[test]
fn exact_a_answer() {
    let store = store_from(Some(300), vec![record("@", "A", "10.0.0.1")]);
    let req = make_query_msg("example.test.", RecordType::A);
    let resp = store.answer(&req).expect("should answer");
    assert!(resp.authoritative);
    assert_eq!(resp.rcode, ResponseCode::NoError);
    assert!(has_record_type(&resp.answers, RecordType::A));
    assert!(has_record_type(&resp.authority, RecordType::Soa));
    assert!(has_record_type(&resp.authority, RecordType::Ns));
}

#[test]
fn wildcard_a_answer() {
    let store = store_from(Some(300), vec![record("*.wild", "A", "10.0.0.99")]);
    let req = make_query_msg("foo.wild.example.test.", RecordType::A);
    let resp = store.answer(&req).expect("should answer via wildcard");
    assert!(resp.authoritative);
    assert_eq!(resp.rcode, ResponseCode::NoError);
    assert!(has_record_type(&resp.answers, RecordType::A));
}

#[test]
fn cname_one_hop_answer() {
    let store = store_from(
        Some(300),
        vec![record("@", "A", "10.0.0.1"), record("www", "CNAME", "@")],
    );
    let req = make_query_msg("www.example.test.", RecordType::A);
    let resp = store.answer(&req).expect("should cname and answer A");
    assert!(resp.authoritative);
    assert_eq!(resp.rcode, ResponseCode::NoError);
    assert!(has_record_type(&resp.answers, RecordType::Cname));
    assert!(has_record_type(&resp.answers, RecordType::A));
}

#[test]
fn nodata_still_soans() {
    let store = store_from(Some(300), vec![record("onlytxt", "TXT", "hello")]);
    let req = make_query_msg("onlytxt.example.test.", RecordType::A);
    let resp = store.answer(&req).expect("should return NODATA NoError");
    assert!(resp.authoritative);
    assert_eq!(resp.rcode, ResponseCode::NoError);
    assert_eq!(resp.answers.len(), 0);
    assert!(has_record_type(&resp.authority, RecordType::Soa));
    assert!(has_record_type(&resp.authority, RecordType::Ns));
}

#[test]
fn txt_resolution() {
    let store = store_from(None, vec![record("text", "TXT", "hello")]);
    let req = make_query_msg("text.example.test.", RecordType::Txt);
    let resp = store.answer(&req).expect("should answer TXT");
    assert!(resp.authoritative);
    assert_eq!(resp.rcode, ResponseCode::NoError);
    assert!(has_record_type(&resp.answers, RecordType::Txt));
}

#[test]
fn mx_resolution() {
    let mut mx = record("mail", "MX", "mailhost.example.test.");
    mx.preference = Some(10);
    let store = store_from(None, vec![mx]);
    let req = make_query_msg("mail.example.test.", RecordType::Mx);
    let resp = store.answer(&req).expect("should answer MX");
    assert!(resp.authoritative);
    assert_eq!(resp.rcode, ResponseCode::NoError);
    assert!(has_record_type(&resp.answers, RecordType::Mx));
}

#[test]
fn wildcard_cname_only_cname() {
    let store = store_from(
        None,
        vec![record("@", "A", "10.0.0.1"), record("*.app", "CNAME", "@")],
    );
    let req = make_query_msg("foo.app.example.test.", RecordType::A);
    let resp = store.answer(&req).expect("should answer with CNAME from wildcard");
    assert!(resp.authoritative);
    assert_eq!(resp.rcode, ResponseCode::NoError);
    assert!(has_record_type(&resp.answers, RecordType::Cname));
    assert!(!has_record_type(&resp.answers, RecordType::A));
}
