use lab_name_server::name::name_in_zone;
use lab_name_server::{
    ensure_fqdn, parse_name, parse_name_checked, parse_rtype, servfail, value_to_name,
    value_to_name_checked, Action, Config, MessageType, OpCode, ConfigError, DnsName, Exchange, Question, RData,
    RecordCfg, RecordType, Request, Resolution, Response, ResponseCode, Soa, Zone, ZoneStore,
};

fn soa_for(origin: &str) -> Soa {
    Soa {
        mname: format!("ns1.{}", origin),
        rname: format!("hostmaster.{}", origin),
        serial: 7,
        refresh: 3600,
        retry: 600,
        expire: 86400,
        minimum: 300,
    }
}

fn rec(name: &str, rtype: &str, value: Option<&str>) -> RecordCfg {
    RecordCfg {
        name: name.to_string(),
        record_type: rtype.to_string(),
        value: value.map(|v| v.to_string()),
        ttl: None,
        preference: None,
    }
}

fn zone(origin: &str, ttl: Option<u32>, records: Vec<RecordCfg>) -> Zone {
    Zone {
        origin: origin.to_string(),
        ttl,
        soa: soa_for(origin),
        ns: vec![format!("ns1.{}", origin)],
        records,
    }
}

fn config(default_ttl: Option<u32>, zones: Vec<Zone>) -> Config {
    Config { listen: None, upstream: None, default_ttl, zones }
}

fn store(zones: Vec<Zone>) -> ZoneStore {
    ZoneStore::from_config(&config(None, zones)).expect("store")
}

fn query(id: u16, name: &str, rtype: u16) -> Request {
    Request {
        id,
        recursion_desired: true,
        question: Some(Question { name: parse_name(name), qtype: rtype, qclass: 1 }),
    }
}

fn ascii(owner: &DnsName) -> String {
    owner.to_ascii()
}

fn answer_ok(s: &ZoneStore, req: &Request) -> Response {
    match s.answer_checked(req) {
        Resolution::Answered(r) => r,
        other => panic!("expected an answer, got {:?}", other),
    }
}

// ---------------------------------------------------------------------------
// Names
// ---------------------------------------------------------------------------

#[test]
fn fqdn_lowercases_and_appends_dot() {
    assert_eq!(ensure_fqdn("Example.COM"), "example.com.");
    assert_eq!(ensure_fqdn("a.b."), "a.b.");
    assert_eq!(ensure_fqdn(""), ".");
}

#[test]
fn fqdn_is_idempotent() {
    let once = ensure_fqdn("WWW.Lab");
    assert_eq!(ensure_fqdn(&once), once);
}

#[test]
fn fqdn_ignores_ascii_case() {
    assert_eq!(ensure_fqdn("MiXeD.Case"), ensure_fqdn("mixed.CASE"));
    assert_eq!(ensure_fqdn("ÄRGER.Test"), ensure_fqdn("ärger.TEST"));
    assert_eq!(ensure_fqdn("ÄRGER.Test"), "ärger.test.");
    let n = ensure_fqdn("Ünïcode.TEST");
    assert!(n.ends_with('.'));
    assert!(!n.bytes().any(|b| b.is_ascii_uppercase()));
}

#[test]
fn parse_name_reads_hickory_forms() {
    let n = parse_name("WWW.Example.Test");
    assert_eq!(n.to_ascii(), "www.example.test.");
    assert_eq!(n.labels, 3);
    let w = parse_name("*.wild.example.test.");
    assert_eq!(w.labels, 3);
}

#[test]
fn parse_name_rejects_bad_labels() {
    assert!(parse_name_checked("bad name.test").is_none());
    assert!(parse_name_checked("-lead.test.").is_none());
    assert!(parse_name_checked("ok-label.test.").is_some());
}

#[test]
fn value_to_name_at_relative_and_absolute() {
    let origin = parse_name("example.test.");
    assert_eq!(value_to_name("@", &origin).to_ascii(), "example.test.");
    assert_eq!(value_to_name("www", &origin).to_ascii(), "www.example.test.");
    assert_eq!(value_to_name("Other.Org.", &origin).to_ascii(), "other.org.");
    assert!(value_to_name_checked("bad name", &origin).is_none());
}

// ---------------------------------------------------------------------------
// Record types and record data
// ---------------------------------------------------------------------------

#[test]
fn rtype_mnemonics_any_case() {
    assert_eq!(parse_rtype("a").unwrap(), RecordType::A);
    assert_eq!(parse_rtype("aaaa").unwrap(), RecordType::Aaaa);
    assert_eq!(parse_rtype("Cname").unwrap(), RecordType::Cname);
    assert_eq!(parse_rtype("txt").unwrap(), RecordType::Txt);
    assert_eq!(parse_rtype("mx").unwrap(), RecordType::Mx);
    assert_eq!(parse_rtype("ns").unwrap(), RecordType::Ns);
    assert_eq!(parse_rtype("SOA").unwrap(), RecordType::Soa);
}

#[test]
fn rtype_unsupported_reports_uppercased() {
    match parse_rtype("srv") {
        Err(ConfigError::UnsupportedRecordType(s)) => assert_eq!(s, "SRV"),
        other => panic!("unexpected {:?}", other),
    }
    let e = parse_rtype("ptr").unwrap_err();
    assert_eq!(e.message(), "unsupported record type in config: PTR");
}

#[test]
fn rtype_codes() {
    assert_eq!(RecordType::A.code(), 1);
    assert_eq!(RecordType::Ns.code(), 2);
    assert_eq!(RecordType::Cname.code(), 5);
    assert_eq!(RecordType::Soa.code(), 6);
    assert_eq!(RecordType::Mx.code(), 15);
    assert_eq!(RecordType::Txt.code(), 16);
    assert_eq!(RecordType::Aaaa.code(), 28);
}

#[test]
fn addresses_are_parsed_into_octets() {
    let s = store(vec![zone(
        "example.test.",
        None,
        vec![rec("v4", "A", Some("192.168.1.20")), rec("v6", "AAAA", Some("2001:db8::1"))],
    )]);
    let r4 = answer_ok(&s, &query(1, "v4.example.test.", 1));
    match &r4.answers[0].rdata {
        RData::A(o) => assert_eq!(*o, [192, 168, 1, 20]),
        other => panic!("unexpected {:?}", other),
    }
    let r6 = answer_ok(&s, &query(2, "v6.example.test.", 28));
    match &r6.answers[0].rdata {
        RData::Aaaa(o) => assert_eq!(*o, [0x20, 0x01, 0x0d, 0xb8, 0, 0, 0, 0, 0, 0, 0, 0, 0, 0, 0, 1]),
        other => panic!("unexpected {:?}", other),
    }
}

#[test]
fn config_errors_for_each_kind() {
    let bad = |r: RecordCfg| {
        ZoneStore::from_config(&config(None, vec![zone("example.test.", None, vec![r])]))
            .err()
            .expect("refused")
    };
    assert!(matches!(bad(rec("x", "A", None)), ConfigError::MissingValue(RecordType::A)));
    assert!(matches!(bad(rec("x", "A", Some("300.1.1.1"))), ConfigError::InvalidAddress(RecordType::A)));
    assert!(matches!(bad(rec("x", "AAAA", Some("1.2.3.4"))), ConfigError::InvalidAddress(RecordType::Aaaa)));
    assert!(matches!(bad(rec("x", "CNAME", None)), ConfigError::MissingValue(RecordType::Cname)));
    assert!(matches!(bad(rec("x", "NS", None)), ConfigError::MissingValue(RecordType::Ns)));
    assert!(matches!(bad(rec("x", "TXT", None)), ConfigError::MissingValue(RecordType::Txt)));
    assert!(matches!(bad(rec("x", "MX", Some("m.example.test."))), ConfigError::MissingPreference));
    let mut mx = rec("x", "MX", None);
    mx.preference = Some(5);
    assert!(matches!(bad(mx), ConfigError::MissingValue(RecordType::Mx)));
    assert!(matches!(bad(rec("x", "SOA", Some("x"))), ConfigError::SoaInRecords));
    assert!(matches!(bad(rec("x", "SRV", Some("x"))), ConfigError::UnsupportedRecordType(_)));
}

#[test]
fn ipv4_values_use_dot_decimal_notation() {
    let bad = |v: &str| {
        ZoneStore::from_config(&config(None, vec![zone("example.test.", None, vec![rec("x", "A", Some(v))])]))
            .err()
    };
    for v in ["010.0.0.1", "1.2.3", "1.2.3.4.5", "0x7f.0.0.1", "1..2.3", " 1.2.3.4", "1.2.3.4 ", "1000.0.0.1"] {
        assert!(matches!(bad(v), Some(ConfigError::InvalidAddress(RecordType::A))), "{}", v);
    }
    let s = store(vec![zone("example.test.", None, vec![rec("x", "A", Some("0.10.255.7"))])]);
    let r = answer_ok(&s, &query(1, "x.example.test.", 1));
    match &r.answers[0].rdata {
        RData::A(o) => assert_eq!(*o, [0, 10, 255, 7]),
        other => panic!("unexpected {:?}", other),
    }
}

#[test]
fn first_refused_record_decides() {
    let r = ZoneStore::from_config(&config(
        None,
        vec![zone(
            "example.test.",
            None,
            vec![rec("a", "A", Some("10.0.0.1")), rec("b", "TXT", None), rec("c", "A", None)],
        )],
    ));
    assert!(matches!(r, Err(ConfigError::MissingValue(RecordType::Txt))));
}

#[test]
fn invalid_configured_name_is_reported() {
    let r = ZoneStore::from_config_checked(&config(
        None,
        vec![zone("example.test.", None, vec![rec("bad name", "A", Some("10.0.0.1"))])],
    ));
    assert!(r.is_none());
    let r2 = ZoneStore::from_config_checked(&config(None, vec![zone("bad origin.", None, vec![])]));
    assert!(r2.is_none());
}

// ---------------------------------------------------------------------------
// Answers
// ---------------------------------------------------------------------------

#[test]
fn ttls_default_to_zone_then_config_then_300() {
    let mut own = rec("own", "A", Some("10.0.0.1"));
    own.ttl = Some(42);
    let s = ZoneStore::from_config(&config(
        None,
        vec![
            zone("a.test.", Some(120), vec![own, rec("zone", "A", Some("10.0.0.2"))]),
            zone("b.test.", None, vec![rec("dflt", "A", Some("10.0.0.3"))]),
        ],
    ))
    .unwrap();
    assert_eq!(answer_ok(&s, &query(1, "own.a.test.", 1)).answers[0].ttl, 42);
    assert_eq!(answer_ok(&s, &query(1, "zone.a.test.", 1)).answers[0].ttl, 120);
    assert_eq!(answer_ok(&s, &query(1, "dflt.b.test.", 1)).answers[0].ttl, 300);
    let s2 = ZoneStore::from_config(&config(
        Some(60),
        vec![zone("c.test.", None, vec![rec("x", "A", Some("10.0.0.4"))])],
    ))
    .unwrap();
    let r = answer_ok(&s2, &query(1, "x.c.test.", 1));
    assert_eq!(r.answers[0].ttl, 60);
    assert_eq!(r.authority[0].ttl, 60);
}

#[test]
fn response_echoes_request_header() {
    let s = store(vec![zone("example.test.", None, vec![rec("@", "A", Some("10.0.0.1"))])]);
    let req = query(4242, "example.test.", 1);
    let r = answer_ok(&s, &req);
    assert_eq!(r.id, 4242);
    assert!(r.recursion_desired);
    assert!(r.authoritative);
    let q = r.question.expect("question echoed");
    assert_eq!(q.name.to_ascii(), "example.test.");
    assert_eq!(q.qtype, 1);
    assert_eq!(ascii(&r.answers[0].owner), "example.test.");
}

#[test]
fn authority_is_soa_then_ns() {
    let s = store(vec![zone("example.test.", None, vec![])]);
    let r = answer_ok(&s, &query(1, "nothing.example.test.", 1));
    assert_eq!(r.answers.len(), 0);
    assert_eq!(r.authority.len(), 2);
    match &r.authority[0].rdata {
        RData::Soa(soa) => {
            assert_eq!(soa.mname.to_ascii(), "ns1.example.test.");
            assert_eq!(soa.rname.to_ascii(), "hostmaster.example.test.");
            assert_eq!(soa.serial, 7);
            assert_eq!(soa.refresh, 3600);
        },
        other => panic!("unexpected {:?}", other),
    }
    assert_eq!(ascii(&r.authority[0].owner), "example.test.");
    match &r.authority[1].rdata {
        RData::Ns(n) => assert_eq!(n.to_ascii(), "ns1.example.test."),
        other => panic!("unexpected {:?}", other),
    }
}

#[test]
fn soa_timers_are_capped() {
    let mut z = zone("example.test.", None, vec![]);
    z.soa.refresh = u32::MAX;
    z.soa.retry = 0x8000_0000;
    z.soa.expire = 0x7fff_ffff;
    let s = store(vec![z]);
    let r = answer_ok(&s, &query(1, "example.test.", 1));
    match &r.authority[0].rdata {
        RData::Soa(soa) => {
            assert_eq!(soa.refresh, i32::MAX);
            assert_eq!(soa.retry, i32::MAX);
            assert_eq!(soa.expire, i32::MAX);
        },
        other => panic!("unexpected {:?}", other),
    }
}

#[test]
fn names_outside_zones_are_not_answered() {
    let s = store(vec![zone("example.test.", None, vec![rec("@", "A", Some("10.0.0.1"))])]);
    assert!(s.answer(&query(1, "example.org.", 1)).is_none());
    assert!(matches!(s.answer_checked(&query(1, "other.test.", 1)), Resolution::Outside));
    let no_question = Request { id: 1, recursion_desired: false, question: None };
    assert!(matches!(s.answer_checked(&no_question), Resolution::Outside));
}

#[test]
fn record_lookup_ignores_case_of_query() {
    let s = store(vec![zone("example.test.", None, vec![rec("www", "A", Some("10.0.0.1"))])]);
    let packet = query_packet(1, &["wWw", "example", "test"], 1);
    match Exchange::start_packet(&s, &packet, vec![]).0 {
        Action::Reply(r) => assert_eq!(r.answers.len(), 1),
        other => panic!("unexpected {:?}", other),
    }
}

#[test]
fn zone_choice_ignores_letter_case() {
    let s = store(vec![zone("example.test.", None, vec![rec("www", "A", Some("10.0.0.1"))])]);
    let packet = query_packet(1, &["www", "EXAMPLE", "test"], 1);
    match Exchange::start_packet(&s, &packet, vec!["10.1.1.1".to_string()]).0 {
        Action::Reply(r) => {
            assert!(r.authoritative);
            assert_eq!(r.answers.len(), 1);
            match &r.answers[0].rdata {
                RData::A(o) => assert_eq!(*o, [10, 0, 0, 1]),
                other => panic!("unexpected {:?}", other),
            }
            assert_eq!(ascii(&r.answers[0].owner), "www.EXAMPLE.test.");
        },
        other => panic!("unexpected {:?}", other),
    }
}

#[test]
fn uppercase_origin_query_is_answered() {
    let s = store(vec![zone("example.test.", None, vec![rec("@", "A", Some("10.0.0.1"))])]);
    let packet = query_packet(5, &["EXAMPLE", "TEST"], 1);
    match Exchange::start_packet(&s, &packet, vec!["10.1.1.1".to_string()]).0 {
        Action::Reply(r) => {
            assert!(r.authoritative);
            assert_eq!(r.rcode, ResponseCode::NoError);
            assert_eq!(r.answers.len(), 1);
            match &r.answers[0].rdata {
                RData::A(o) => assert_eq!(*o, [10, 0, 0, 1]),
                other => panic!("unexpected {:?}", other),
            }
        },
        other => panic!("unexpected {:?}", other),
    }
}

#[test]
fn uppercase_query_matches_wildcard() {
    let s = store(vec![zone("example.test.", None, vec![rec("*.wild", "A", Some("10.0.0.9"))])]);
    let packet = query_packet(6, &["Host", "WILD", "Example", "Test"], 1);
    match Exchange::start_packet(&s, &packet, vec![]).0 {
        Action::Reply(r) => {
            assert_eq!(r.answers.len(), 1);
            match &r.answers[0].rdata {
                RData::A(o) => assert_eq!(*o, [10, 0, 0, 9]),
                other => panic!("unexpected {:?}", other),
            }
        },
        other => panic!("unexpected {:?}", other),
    }
}

#[test]
fn most_specific_zone_serves() {
    let s = store(vec![
        zone("test.", None, vec![rec("www.sub", "A", Some("10.0.0.1"))]),
        zone("sub.test.", None, vec![rec("www", "A", Some("10.0.0.2"))]),
    ]);
    let r = answer_ok(&s, &query(1, "www.sub.test.", 1));
    match &r.answers[0].rdata {
        RData::A(o) => assert_eq!(*o, [10, 0, 0, 2]),
        other => panic!("unexpected {:?}", other),
    }
    assert_eq!(ascii(&r.authority[0].owner), "sub.test.");
}

#[test]
fn zone_match_respects_label_boundaries() {
    let s = store(vec![zone("example.test.", None, vec![rec("@", "A", Some("10.0.0.1"))])]);
    assert!(matches!(s.answer_checked(&query(1, "myexample.test.", 1)), Resolution::Outside));
    assert!(s.answer(&query(1, "badexample.test.", 1)).is_none());
    let r = answer_ok(&s, &query(1, "deep.sub.example.test.", 1));
    assert_eq!(r.answers.len(), 0);
    assert_eq!(ascii(&r.authority[0].owner), "example.test.");
}

#[test]
fn name_outside_zone_by_label_is_forwarded() {
    let s = store(vec![zone("example.test.", None, vec![])]);
    let packet = query_packet(2, &["badexample", "test"], 1);
    match Exchange::start_packet(&s, &packet, vec!["10.1.1.1".to_string()]).0 {
        Action::Forward(addr) => assert_eq!(addr, "10.1.1.1:53"),
        other => panic!("unexpected {:?}", other),
    }
}

#[test]
fn same_name_ignores_case_only() {
    let a = parse_name("www.example.test.");
    let b = value_to_name("WWW", &parse_name("Example.Test."));
    assert!(a.same_name(&b));
    let c = parse_name("www.example.tests.");
    assert!(!a.same_name(&c));
    let d = parse_name("example.test.");
    assert!(!a.same_name(&d));
}

#[test]
fn zone_membership_is_label_wise() {
    let origin = parse_name("example.test.");
    assert!(name_in_zone(&parse_name("example.test."), &origin));
    assert!(name_in_zone(&parse_name("a.b.EXAMPLE.Test."), &origin));
    assert!(!name_in_zone(&parse_name("badexample.test."), &origin));
    assert!(!name_in_zone(&parse_name("test."), &origin));
    assert!(name_in_zone(&parse_name("anything.test."), &parse_name(".")));
}

#[test]
fn record_type_case_does_not_change_store() {
    let lower = store(vec![zone("example.test.", None, vec![rec("www", "a", Some("10.0.0.1"))])]);
    let upper = store(vec![zone("example.test.", None, vec![rec("www", "A", Some("10.0.0.1"))])]);
    let q = query(3, "www.example.test.", 1);
    let (l, u) = (answer_ok(&lower, &q), answer_ok(&upper, &q));
    assert_eq!(l.answers.len(), u.answers.len());
    assert_eq!(format!("{:?}", l.answers), format!("{:?}", u.answers));
}

#[test]
fn exact_records_take_precedence_over_wildcard() {
    let s = store(vec![zone(
        "example.test.",
        None,
        vec![rec("*.w", "A", Some("10.0.0.9")), rec("x.w", "A", Some("10.0.0.1"))],
    )]);
    let r = answer_ok(&s, &query(1, "x.w.example.test.", 1));
    assert_eq!(r.answers.len(), 1);
    match &r.answers[0].rdata {
        RData::A(o) => assert_eq!(*o, [10, 0, 0, 1]),
        other => panic!("unexpected {:?}", other),
    }
}

#[test]
fn wildcard_covers_deeper_names() {
    let s = store(vec![zone("example.test.", None, vec![rec("*.wild", "A", Some("10.0.0.9"))])]);
    let r = answer_ok(&s, &query(1, "a.b.wild.example.test.", 1));
    assert_eq!(r.answers.len(), 1);
    assert_eq!(ascii(&r.answers[0].owner), "a.b.wild.example.test.");
    let none = answer_ok(&s, &query(1, "wild.example.test.", 1));
    assert_eq!(none.answers.len(), 0);
}

#[test]
fn cname_chase_adds_target_records_and_authority() {
    let s = store(vec![
        zone("example.test.", None, vec![rec("www", "CNAME", Some("host.other.test."))]),
        zone("other.test.", None, vec![rec("host", "A", Some("10.9.9.9"))]),
    ]);
    let r = answer_ok(&s, &query(1, "www.example.test.", 1));
    assert_eq!(r.answers.len(), 2);
    assert!(matches!(r.answers[0].rdata, RData::Cname(_)));
    assert_eq!(ascii(&r.answers[1].owner), "host.other.test.");
    assert_eq!(r.authority.len(), 4);
    assert_eq!(ascii(&r.authority[0].owner), "other.test.");
    assert_eq!(ascii(&r.authority[2].owner), "example.test.");
}

#[test]
fn cname_query_is_not_chased() {
    let s = store(vec![zone(
        "example.test.",
        None,
        vec![rec("@", "A", Some("10.0.0.1")), rec("www", "CNAME", Some("@"))],
    )]);
    let r = answer_ok(&s, &query(1, "www.example.test.", 5));
    assert_eq!(r.answers.len(), 1);
    assert!(matches!(r.answers[0].rdata, RData::Cname(_)));
}

#[test]
fn invalid_soa_name_aborts_answer() {
    let mut z = zone("example.test.", None, vec![rec("@", "A", Some("10.0.0.1"))]);
    z.soa.mname = "bad name".to_string();
    let s = store(vec![z]);
    assert!(matches!(s.answer_checked(&query(1, "example.test.", 1)), Resolution::Aborted));
}

// ---------------------------------------------------------------------------
// Packet decisions
// ---------------------------------------------------------------------------

fn outside_request() -> Request {
    query(9, "elsewhere.org.", 1)
}

#[test]
fn local_answer_is_replied() {
    let s = store(vec![zone("example.test.", None, vec![rec("@", "A", Some("10.0.0.1"))])]);
    let (action, x) = Exchange::start(&s, Some(query(3, "example.test.", 1)), vec!["1.1.1.1".to_string()]);
    assert!(x.is_none());
    match action {
        Action::Reply(r) => {
            assert_eq!(r.id, 3);
            assert!(r.authoritative);
        },
        other => panic!("unexpected {:?}", other),
    }
}

#[test]
fn undecodable_packet_gets_no_reply() {
    let s = store(vec![]);
    let (action, x) = Exchange::start(&s, None, vec!["1.1.1.1".to_string()]);
    assert!(matches!(action, Action::Finish));
    assert!(x.is_none());
}

#[test]
fn outside_without_upstreams_is_servfail() {
    let s = store(vec![]);
    let (action, _) = Exchange::start(&s, Some(outside_request()), vec![]);
    match action {
        Action::Reply(r) => {
            assert_eq!(r.rcode, ResponseCode::ServFail);
            assert_eq!(r.id, 9);
            assert!(!r.authoritative);
            assert!(r.question.is_some());
        },
        other => panic!("unexpected {:?}", other),
    }
}

#[test]
fn upstreams_tried_in_order_then_servfail() {
    let s = store(vec![]);
    let ups = vec!["1.1.1.1".to_string(), "8.8.8.8".to_string()];
    let (a1, x1) = Exchange::start(&s, Some(outside_request()), ups);
    match a1 {
        Action::Forward(addr) => assert_eq!(addr, "1.1.1.1:53"),
        other => panic!("unexpected {:?}", other),
    }
    let (a2, x2) = x1.expect("pending").upstream_replied(None);
    match a2 {
        Action::Forward(addr) => assert_eq!(addr, "8.8.8.8:53"),
        other => panic!("unexpected {:?}", other),
    }
    let (a3, x3) = x2.expect("pending").upstream_replied(None);
    assert!(x3.is_none());
    match a3 {
        Action::Reply(r) => assert_eq!(r.rcode, ResponseCode::ServFail),
        other => panic!("unexpected {:?}", other),
    }
}

#[test]
fn upstream_reply_is_relayed() {
    let s = store(vec![]);
    let (_, x) = Exchange::start(&s, Some(outside_request()), vec!["9.9.9.9".to_string()]);
    let (a, rest) = x.expect("pending").upstream_replied(Some(vec![1, 2, 3]));
    assert!(rest.is_none());
    match a {
        Action::Relay(b) => assert_eq!(b, vec![1, 2, 3]),
        other => panic!("unexpected {:?}", other),
    }
}

#[test]
fn servfail_copies_id_and_question() {
    let r = servfail(&outside_request());
    assert_eq!(r.id, 9);
    assert_eq!(r.message_type, MessageType::Response);
    assert_eq!(r.op_code, OpCode::Query);
    assert!(!r.recursion_desired);
    assert!(!r.recursion_available);
    assert!(!r.authoritative);
    assert_eq!(r.rcode, ResponseCode::ServFail);
    assert_eq!(r.answers.len(), 0);
    assert_eq!(r.authority.len(), 0);
    assert_eq!(r.question.unwrap().name.to_ascii(), "elsewhere.org.");
}

fn query_packet(id: u16, labels: &[&str], qtype: u16) -> Vec<u8> {
    let mut p = vec![(id >> 8) as u8, id as u8, 0x01, 0x00, 0, 1, 0, 0, 0, 0, 0, 0];
    for l in labels {
        p.push(l.len() as u8);
        p.extend_from_slice(l.as_bytes());
    }
    p.push(0);
    p.extend_from_slice(&[(qtype >> 8) as u8, qtype as u8, 0, 1]);
    p
}

#[test]
fn packet_is_decoded_and_answered() {
    let s = store(vec![zone("example.test.", None, vec![rec("www", "A", Some("10.0.0.1"))])]);
    let packet = query_packet(0x1234, &["WWW", "example", "test"], 1);
    let (action, x) = Exchange::start_packet(&s, &packet, vec![]);
    assert!(x.is_none());
    match action {
        Action::Reply(r) => {
            assert_eq!(r.id, 0x1234);
            assert_eq!(r.message_type, MessageType::Response);
            assert_eq!(r.op_code, OpCode::Query);
            assert!(r.recursion_desired);
            assert!(!r.recursion_available);
            assert!(r.authoritative);
            assert_eq!(r.answers.len(), 1);
            let q = r.question.expect("question");
            assert_eq!(q.name.to_ascii(), "WWW.example.test.");
            assert_eq!(q.qtype, 1);
            assert_eq!(q.qclass, 1);
            assert_eq!(r.answers[0].owner.to_ascii(), "WWW.example.test.");
        },
        other => panic!("unexpected {:?}", other),
    }
}

#[test]
fn garbage_packet_gets_no_reply() {
    let s = store(vec![zone("example.test.", None, vec![])]);
    let (action, x) = Exchange::start_packet(&s, &[1, 2, 3], vec!["1.1.1.1".to_string()]);
    assert!(matches!(action, Action::Finish));
    assert!(x.is_none());
}

#[test]
fn outside_packet_is_forwarded() {
    let s = store(vec![zone("example.test.", None, vec![])]);
    let packet = query_packet(7, &["example", "org"], 1);
    let (action, x) = Exchange::start_packet(&s, &packet, vec!["10.1.1.1".to_string()]);
    assert!(x.is_some());
    match action {
        Action::Forward(addr) => assert_eq!(addr, "10.1.1.1:53"),
        other => panic!("unexpected {:?}", other),
    }
}
