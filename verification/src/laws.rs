//! Properties of the name server that hold across calls and inputs.

use vstd::prelude::*;

use crate::answer::{
    answer_spec, authority_spec, best_zone, chase_spec, exact_phase_spec, find_wildcard_spec,
    has_name, lookup_exact_spec, owned_records, select, zone_serves,
    MessageType, OpCode, RecordV, RequestV, ResolutionV, ResponseCode,
};
use crate::config::{
    build_rdata_spec, cname_code, parse_rtype_spec, rdata_type, type_code, ConfigV, RDataV,
    RecordCfgV, ZoneCfgV,
};
use crate::name::{
    ensure_fqdn_spec, labels_lower, names_eq, parse_name_spec, value_to_name_spec,
    NameV,
};
use crate::server::{
    hickory_decode_request, servfail_spec, start_spec, upstream_address_spec, upstream_replied_spec, ActionV, ExchangeV,
};
use crate::store::{
    config_default_ttl, from_config_spec, record_key_spec, record_ttl, zone_records_spec,
    zone_spec, zone_ttl, zones_spec, EntryV, ZoneV,
};
use crate::text::{
    all_ascii, ascii_lower, ascii_lower_seq, ascii_upper_seq, ends_with_char, eq_ignore_ascii_case,
    lowercase,
};

verus! {

// ---------------------------------------------------------------------------
// Names
// ---------------------------------------------------------------------------

proof fn lemma_ascii_lower_char(c: char)
    requires
        (c as u32) < 128,
    ensures
        (ascii_lower(c) as u32) < 128,
        ascii_lower(ascii_lower(c)) == ascii_lower(c),
        c == '.' ==> ascii_lower(c) == '.',
        ascii_lower(c) == '.' ==> c == '.',
{
}

proof fn lemma_ascii_lower_seq(s: Seq<char>)
    requires
        all_ascii(s),
    ensures
        all_ascii(ascii_lower_seq(s)),
        ascii_lower_seq(ascii_lower_seq(s)) == ascii_lower_seq(s),
        ends_with_char(ascii_lower_seq(s), '.') == ends_with_char(s, '.'),
{
    assert forall|i: int| 0 <= i < s.len() implies (#[trigger] ascii_lower_seq(s)[i] as u32) < 128
        && ascii_lower(ascii_lower_seq(s)[i]) == ascii_lower_seq(s)[i] by {
        lemma_ascii_lower_char(s[i]);
    }
    assert(ascii_lower_seq(ascii_lower_seq(s)) =~= ascii_lower_seq(s));
    if s.len() > 0 {
        lemma_ascii_lower_char(s.last());
    }
}

/// Configured ASCII names are normalised to absolute, lowercase form, and
/// normalising again changes nothing.
pub proof fn law_fqdn_absolute_lowercase_idempotent(s: Seq<char>)
    requires
        all_ascii(s),
    ensures
        all_ascii(ensure_fqdn_spec(s)),
        ends_with_char(ensure_fqdn_spec(s), '.'),
        ascii_lower_seq(ensure_fqdn_spec(s)) == ensure_fqdn_spec(s),
        ensure_fqdn_spec(ensure_fqdn_spec(s)) == ensure_fqdn_spec(s),
{
    lemma_ascii_lower_seq(s);
    let l = ascii_lower_seq(s);
    if !ends_with_char(l, '.') {
        let f = l.push('.');
        assert(all_ascii(f)) by {
            assert forall|i: int| 0 <= i < f.len() implies (#[trigger] f[i] as u32) < 128 by {
                if i < l.len() {
                    assert(f[i] == l[i]);
                }
            }
        }
        assert(ascii_lower_seq(f) =~= f) by {
            assert forall|i: int| 0 <= i < f.len() implies #[trigger] ascii_lower_seq(f)[i]
                == f[i] by {
                if i < l.len() {
                    assert(f[i] == l[i]);
                    lemma_ascii_lower_char(s[i]);
                }
            }
        }
    }
}

/// Names whose lowercase forms agree normalise to the same name, so they parse
/// to the same name too: the letter case of a configured name does not matter.
pub proof fn law_fqdn_ignores_case(s: Seq<char>, t: Seq<char>)
    requires
        lowercase(s) == lowercase(t),
    ensures
        ensure_fqdn_spec(s) == ensure_fqdn_spec(t),
        parse_name_spec(s) == parse_name_spec(t),
{
}

/// In particular, ASCII names that differ only in letter case normalise to the
/// same name.
pub proof fn law_fqdn_ignores_ascii_case(s: Seq<char>, t: Seq<char>)
    requires
        all_ascii(s),
        all_ascii(t),
        eq_ignore_ascii_case(s, t),
    ensures
        ensure_fqdn_spec(s) == ensure_fqdn_spec(t),
        parse_name_spec(s) == parse_name_spec(t),
{
    law_fqdn_ignores_case(s, t);
}

/// Two record type mnemonics that differ at most in ASCII letter case: the
/// same text, or two ASCII texts with the same uppercase form.
pub open spec fn same_mnemonic(a: Seq<char>, b: Seq<char>) -> bool {
    a == b || (all_ascii(a) && all_ascii(b) && ascii_upper_seq(a) == ascii_upper_seq(b))
}

/// Two configured records that differ at most in the letter case of their
/// type mnemonic.
pub open spec fn records_differ_in_type_case(a: RecordCfgV, b: RecordCfgV) -> bool {
    &&& a.name == b.name
    &&& a.value == b.value
    &&& a.ttl == b.ttl
    &&& a.preference == b.preference
    &&& same_mnemonic(a.record_type, b.record_type)
}

/// Two lists of configured records that differ at most in the letter case of
/// their type mnemonics.
pub open spec fn record_lists_differ_in_type_case(a: Seq<RecordCfgV>, b: Seq<RecordCfgV>) -> bool {
    a.len() == b.len() && forall|i: int|
        0 <= i < a.len() ==> records_differ_in_type_case(#[trigger] a[i], b[i])
}

/// Two configured zones that differ at most in the letter case of their
/// records' type mnemonics.
pub open spec fn zones_differ_in_type_case(a: ZoneCfgV, b: ZoneCfgV) -> bool {
    &&& a.origin == b.origin
    &&& a.ttl == b.ttl
    &&& a.soa == b.soa
    &&& a.ns == b.ns
    &&& record_lists_differ_in_type_case(a.records, b.records)
}

/// Two configurations whose zones differ at most in the letter case of their
/// records' type mnemonics (listen address and upstreams may differ freely).
pub open spec fn configs_differ_in_type_case(a: ConfigV, b: ConfigV) -> bool {
    &&& a.default_ttl == b.default_ttl
    &&& a.zones.len() == b.zones.len()
    &&& forall|i: int|
        0 <= i < a.zones.len() ==> zones_differ_in_type_case(#[trigger] a.zones[i], b.zones[i])
}

proof fn lemma_records_ignore_type_case(
    a: Seq<RecordCfgV>,
    b: Seq<RecordCfgV>,
    origin: NameV,
    zttl: u32,
)
    requires
        record_lists_differ_in_type_case(a, b),
    ensures
        zone_records_spec(a, origin, zttl) == zone_records_spec(b, origin, zttl),
    decreases a.len(),
{
    if a.len() > 0 {
        let n = a.len() - 1;
        assert(records_differ_in_type_case(a[n], b[n]));
        assert forall|i: int| 0 <= i < a.drop_last().len() implies records_differ_in_type_case(
            #[trigger] a.drop_last()[i],
            b.drop_last()[i],
        ) by {
            assert(records_differ_in_type_case(a[i], b[i]));
        }
        lemma_records_ignore_type_case(a.drop_last(), b.drop_last(), origin, zttl);
        assert(parse_rtype_spec(a.last().record_type) == parse_rtype_spec(b.last().record_type));
    }
}

proof fn lemma_zones_ignore_type_case(a: Seq<ZoneCfgV>, b: Seq<ZoneCfgV>, d: u32)
    requires
        a.len() == b.len(),
        forall|i: int| 0 <= i < a.len() ==> zones_differ_in_type_case(#[trigger] a[i], b[i]),
    ensures
        zones_spec(a, d) == zones_spec(b, d),
    decreases a.len(),
{
    if a.len() > 0 {
        let n = a.len() - 1;
        assert forall|i: int| 0 <= i < a.drop_last().len() implies zones_differ_in_type_case(
            #[trigger] a.drop_last()[i],
            b.drop_last()[i],
        ) by {
            assert(zones_differ_in_type_case(a[i], b[i]));
        }
        lemma_zones_ignore_type_case(a.drop_last(), b.drop_last(), d);
        assert(zones_differ_in_type_case(a[n], b[n]));
        let za = a.last();
        let zb = b.last();
        if let Some(origin) = parse_name_spec(za.origin) {
            lemma_records_ignore_type_case(za.records, zb.records, origin, zone_ttl(za, d));
        }
        assert(zone_spec(za, d) == zone_spec(zb, d));
    }
}

/// The letter case of record type mnemonics does not matter: configurations
/// that differ only there build the same zones, or fail alike.
pub proof fn law_config_ignores_type_case(a: ConfigV, b: ConfigV)
    requires
        configs_differ_in_type_case(a, b),
    ensures
        from_config_spec(a) == from_config_spec(b),
{
    lemma_zones_ignore_type_case(a.zones, b.zones, config_default_ttl(a));
}

// ---------------------------------------------------------------------------
// Zone choice
// ---------------------------------------------------------------------------

/// The zone chosen for a name does not depend on the name's letter case.
pub proof fn law_zone_choice_ignores_case(zones: Seq<ZoneV>, a: NameV, b: NameV)
    requires
        names_eq(a, b),
    ensures
        best_zone(zones, a) == best_zone(zones, b),
    decreases zones.len(),
{
    if zones.len() > 0 {
        law_zone_choice_ignores_case(zones.drop_last(), a, b);
        assert(a.wire.len() == labels_lower(a.wire).len());
        assert(b.wire.len() == labels_lower(b.wire).len());
        assert(zone_serves(zones.last(), a) == zone_serves(zones.last(), b));
    }
}

/// The zone chosen for a name serves it, no serving zone has more labels,
/// and every later serving zone has fewer; where none is chosen, no zone
/// serves the name.
pub proof fn law_most_specific_zone(zones: Seq<ZoneV>, q: NameV)
    ensures
        match best_zone(zones, q) {
            Some(i) => {
                &&& 0 <= i < zones.len()
                &&& zone_serves(zones[i], q)
                &&& forall|j: int|
                    0 <= j < zones.len() && zone_serves(#[trigger] zones[j], q)
                        ==> zones[j].origin.labels <= zones[i].origin.labels
                &&& forall|j: int|
                    i < j < zones.len() && zone_serves(#[trigger] zones[j], q)
                        ==> zones[j].origin.labels < zones[i].origin.labels
            },
            None => forall|j: int| 0 <= j < zones.len() ==> !zone_serves(#[trigger] zones[j], q),
        },
    decreases zones.len(),
{
    if zones.len() > 0 {
        let pre = zones.drop_last();
        let n = zones.len() - 1;
        law_most_specific_zone(pre, q);
        assert forall|j: int| 0 <= j < pre.len() implies #[trigger] pre[j] == zones[j] by {}
        match best_zone(pre, q) {
            None => {
                assert forall|j: int| 0 <= j < n implies !zone_serves(#[trigger] zones[j], q) by {
                    assert(pre[j] == zones[j]);
                }
            },
            Some(i) => {
                assert forall|j: int|
                    0 <= j < n && zone_serves(#[trigger] zones[j], q) implies zones[j].origin.labels
                    <= zones[i].origin.labels by {
                    assert(pre[j] == zones[j]);
                }
                assert forall|j: int|
                    i < j < n && zone_serves(#[trigger] zones[j], q) implies zones[j].origin.labels
                    < zones[i].origin.labels by {
                    assert(pre[j] == zones[j]);
                }
                assert(pre[i] == zones[i]);
            },
        }
    }
}

/// A query is left to the upstreams exactly when no configured zone's origin
/// is its name or one of the name's ancestors (labels compared without
/// regard to ASCII case).
pub proof fn law_outside_exactly_when_no_zone_serves(zones: Seq<ZoneV>, req: RequestV)
    requires
        req.question is Some,
    ensures
        (answer_spec(zones, req) is Outside) <==> forall|j: int|
            0 <= j < zones.len() ==> !zone_serves(#[trigger] zones[j], req.question->Some_0.name),
{
    let q = req.question->Some_0;
    law_most_specific_zone(zones, q.name);
    if let Some(zi) = best_zone(zones, q.name) {
        let zone = zones[zi];
        assert(!(answer_spec(zones, req) is Outside)) by {
            match exact_phase_spec(zones, zone, q) {
                None => {},
                Some(Some(r)) => {},
                Some(None) => {},
            }
        }
    }
}

// ---------------------------------------------------------------------------
// Answers
// ---------------------------------------------------------------------------

/// Every authoritative response is a response to a query, with recursion not
/// available; it echoes the request's id, recursion flag and question, is
/// marked authoritative with NOERROR, and its authority section ends with the
/// serving zone's SOA and NS records.
pub proof fn law_authoritative_response_shape(zones: Seq<ZoneV>, req: RequestV)
    ensures
        answer_spec(zones, req) matches ResolutionV::Answered(resp) ==> {
            &&& resp.id == req.id
            &&& resp.message_type == MessageType::Response
            &&& resp.op_code == OpCode::Query
            &&& !resp.recursion_available
            &&& resp.recursion_desired == req.recursion_desired
            &&& resp.question == req.question
            &&& resp.authoritative
            &&& resp.rcode == ResponseCode::NoError
            &&& req.question matches Some(q)
            &&& best_zone(zones, q.name) matches Some(zi)
            &&& authority_spec(zones[zi]) matches Some(a)
            &&& a.len() <= resp.authority.len()
            &&& resp.authority.subrange(resp.authority.len() - a.len(), resp.authority.len() as int)
                == a
        },
{
    if let ResolutionV::Answered(resp) = answer_spec(zones, req) {
        let q = req.question->Some_0;
        let zi = best_zone(zones, q.name)->Some_0;
        let a = authority_spec(zones[zi])->Some_0;
        let pre = resp.authority.subrange(0, resp.authority.len() - a.len());
        assert(resp.authority == pre + a);
        assert(resp.authority.subrange(resp.authority.len() - a.len(), resp.authority.len() as int)
            =~= a);
    }
}

/// A name that has records of the queried type is answered with exactly those
/// records, owned by the query name, and the zone's SOA and NS records.
pub proof fn law_exact_records_answer(zones: Seq<ZoneV>, req: RequestV, zi: int)
    requires
        req.question matches Some(q) && best_zone(zones, q.name) == Some(zi) && select(
            zones[zi].exact,
            q.name,
            q.qtype,
        ).len() > 0 && authority_spec(zones[zi]) is Some,
    ensures
        answer_spec(zones, req) matches ResolutionV::Answered(resp) && resp.answers
            == owned_records(
            select(zones[zi].exact, req.question->Some_0.name, req.question->Some_0.qtype),
            req.question->Some_0.name,
        ) && resp.authority == authority_spec(zones[zi])->Some_0,
{
    let q = req.question->Some_0;
    let recs = select(zones[zi].exact, q.name, q.qtype);
    lemma_select_members(zones[zi].exact, q.name, q.qtype);
    let e = recs[0];
    assert(has_name(zones[zi].exact, q.name));
    assert(Seq::<RecordV>::empty() + authority_spec(zones[zi])->Some_0 =~= authority_spec(
        zones[zi],
    )->Some_0);
}

/// Every selected record is a record of the list with the name and type.
pub proof fn lemma_select_members(es: Seq<EntryV>, n: NameV, code: u16)
    ensures
        forall|k: int|
            0 <= k < select(es, n, code).len() ==> {
                &&& es.contains(#[trigger] select(es, n, code)[k])
                &&& names_eq(select(es, n, code)[k].name, n)
                &&& type_code(rdata_type(select(es, n, code)[k].rdata)) == code
            },
    decreases es.len(),
{
    if es.len() > 0 {
        let pre = es.drop_last();
        lemma_select_members(pre, n, code);
        let s = select(es, n, code);
        let sp = select(pre, n, code);
        assert forall|k: int| 0 <= k < s.len() implies {
            &&& es.contains(#[trigger] s[k])
            &&& names_eq(s[k].name, n)
            &&& type_code(rdata_type(s[k].rdata)) == code
        } by {
            if k < sp.len() {
                assert(s[k] == sp[k]);
                assert(pre.contains(sp[k]));
                let i = choose|i: int| 0 <= i < pre.len() && pre[i] == sp[k];
                assert(es[i] == pre[i]);
            } else {
                assert(es[es.len() - 1] == s[k]);
            }
        }
    }
}

/// Every record of the list with the name and type is selected.
pub proof fn lemma_select_complete(es: Seq<EntryV>, n: NameV, code: u16, i: int)
    requires
        0 <= i < es.len(),
        names_eq(es[i].name, n),
        type_code(rdata_type(es[i].rdata)) == code,
    ensures
        select(es, n, code).contains(es[i]),
    decreases es.len(),
{
    let s = select(es, n, code);
    if i == es.len() - 1 {
        assert(s[s.len() - 1] == es[i]);
    } else {
        let pre = es.drop_last();
        lemma_select_complete(pre, n, code, i);
        let sp = select(pre, n, code);
        let k = choose|k: int| 0 <= k < sp.len() && sp[k] == pre[i];
        assert(s[k] == sp[k]);
    }
}

/// Configured records are served: a query for a name and type of the zone
/// that serves the name is answered with every record of that name and type,
/// each owned by the query name with its own TTL and data.
pub proof fn law_configured_records_are_served(zones: Seq<ZoneV>, req: RequestV, zi: int, i: int)
    requires
        req.question matches Some(q) && best_zone(zones, q.name) == Some(zi) && 0 <= i
            < zones[zi].exact.len() && names_eq(zones[zi].exact[i].name, q.name) && type_code(
            rdata_type(zones[zi].exact[i].rdata),
        ) == q.qtype && authority_spec(zones[zi]) is Some,
    ensures
        answer_spec(zones, req) matches ResolutionV::Answered(resp) && resp.answers.contains(
            RecordV {
                owner: req.question->Some_0.name,
                ttl: zones[zi].exact[i].ttl,
                rdata: zones[zi].exact[i].rdata,
            },
        ),
{
    let q = req.question->Some_0;
    let e = zones[zi].exact[i];
    law_most_specific_zone(zones, q.name);
    lemma_select_complete(zones[zi].exact, q.name, q.qtype, i);
    let recs = select(zones[zi].exact, q.name, q.qtype);
    let k = choose|k: int| 0 <= k < recs.len() && recs[k] == e;
    law_exact_records_answer(zones, req, zi);
    let out = owned_records(recs, q.name);
    assert(out[k] == RecordV { owner: q.name, ttl: e.ttl, rdata: e.rdata });
}

/// A name of a zone that has no records at all, and no wildcard covering it,
/// gets NODATA: NOERROR, no answers, and the zone's SOA and NS records.
pub proof fn law_nodata(zones: Seq<ZoneV>, req: RequestV, zi: int)
    requires
        req.question matches Some(q) && best_zone(zones, q.name) == Some(zi) && !has_name(
            zones[zi].exact,
            q.name,
        ) && find_wildcard_spec(q.name, zones[zi]) == Some(None::<NameV>) && authority_spec(
            zones[zi],
        ) is Some,
    ensures
        answer_spec(zones, req) matches ResolutionV::Answered(resp) && resp.rcode
            == ResponseCode::NoError && resp.authoritative && resp.answers.len() == 0
            && resp.authority == authority_spec(zones[zi])->Some_0,
{
    assert(Seq::<RecordV>::empty() + authority_spec(zones[zi])->Some_0 =~= authority_spec(
        zones[zi],
    )->Some_0);
}

/// One-hop CNAME: a name with a single CNAME record (and no record of the
/// queried, non-CNAME type) is answered with the CNAME record followed by the
/// target's records of the queried type from the zone serving the target; the
/// authority section holds that zone's SOA/NS records, then the query zone's.
pub proof fn law_cname_one_hop(zones: Seq<ZoneV>, req: RequestV, zi: int, zj: int, target: NameV)
    requires
        req.question matches Some(q) && best_zone(zones, q.name) == Some(zi) && has_name(
            zones[zi].exact,
            q.name,
        ) && select(zones[zi].exact, q.name, q.qtype).len() == 0 && q.qtype != cname_code()
            && select(zones[zi].exact, q.name, cname_code()).len() == 1 && select(
            zones[zi].exact,
            q.name,
            cname_code(),
        )[0].rdata == RDataV::Cname(target) && lookup_exact_spec(zones, target) == Some(zj)
            && authority_spec(zones[zj]) is Some && authority_spec(zones[zi]) is Some,
    ensures
        answer_spec(zones, req) matches ResolutionV::Answered(resp) && resp.answers == seq![
            RecordV {
                owner: req.question->Some_0.name,
                ttl: select(zones[zi].exact, req.question->Some_0.name, cname_code())[0].ttl,
                rdata: RDataV::Cname(target),
            },
        ] + owned_records(
            select(zones[zj].exact, target, req.question->Some_0.qtype),
            target,
        ) && resp.authority == authority_spec(zones[zj])->Some_0 + authority_spec(
            zones[zi],
        )->Some_0,
{
    let q = req.question->Some_0;
    let cn = select(zones[zi].exact, q.name, cname_code());
    assert(cn.drop_last() =~= Seq::<EntryV>::empty());
    assert(chase_spec(zones, q.name, cn.drop_last(), q.qtype) == Some(
        (Seq::<RecordV>::empty(), Seq::<RecordV>::empty()),
    ));
    assert(Seq::<RecordV>::empty().push(
        RecordV { owner: q.name, ttl: cn[0].ttl, rdata: RDataV::Cname(target) },
    ) =~= seq![RecordV { owner: q.name, ttl: cn[0].ttl, rdata: RDataV::Cname(target) }]);
    assert(Seq::<RecordV>::empty() + authority_spec(zones[zj])->Some_0 =~= authority_spec(
        zones[zj],
    )->Some_0);
}

/// Wildcard answers are never chased: where the exact records do not answer,
/// every answer record is owned by the query name and is a wildcard record.
pub proof fn law_wildcard_answers_only_wildcard_records(zones: Seq<ZoneV>, req: RequestV, zi: int)
    requires
        req.question matches Some(q) && best_zone(zones, q.name) == Some(zi)
            && exact_phase_spec(zones, zones[zi], q) == Some(
            None::<(Seq<RecordV>, Seq<RecordV>)>,
        ),
    ensures
        answer_spec(zones, req) matches ResolutionV::Answered(resp) ==> forall|k: int|
            0 <= k < resp.answers.len() ==> (#[trigger] resp.answers[k]).owner == req.question->Some_0.name
                && exists|i: int|
                0 <= i < zones[zi].wild.len() && zones[zi].wild[i].rdata == resp.answers[k].rdata
                    && zones[zi].wild[i].ttl == resp.answers[k].ttl,
{
    let q = req.question->Some_0;
    let zone = zones[zi];
    if let ResolutionV::Answered(resp) = answer_spec(zones, req) {
        if let Some(Some(sn)) = find_wildcard_spec(q.name, zone) {
            lemma_select_members(zone.wild, sn, q.qtype);
            lemma_select_members(zone.wild, sn, cname_code());
            let recs = select(zone.wild, sn, q.qtype);
            let cn = select(zone.wild, sn, cname_code());
            assert forall|k: int| 0 <= k < resp.answers.len() implies (
            #[trigger] resp.answers[k]).owner == q.name && exists|i: int|
                0 <= i < zone.wild.len() && zone.wild[i].rdata == resp.answers[k].rdata
                    && zone.wild[i].ttl == resp.answers[k].ttl by {
                if recs.len() > 0 {
                    assert(resp.answers[k].rdata == recs[k].rdata);
                    assert(zone.wild.contains(recs[k]));
                    let i = choose|i: int| 0 <= i < zone.wild.len() && zone.wild[i] == recs[k];
                    assert(zone.wild[i].rdata == resp.answers[k].rdata);
                } else {
                    assert(resp.answers[k].rdata == cn[k].rdata);
                    assert(zone.wild.contains(cn[k]));
                    let i = choose|i: int| 0 <= i < zone.wild.len() && zone.wild[i] == cn[k];
                    assert(zone.wild[i].rdata == resp.answers[k].rdata);
                }
            }
        }
    }
}

// ---------------------------------------------------------------------------
// Forwarding
// ---------------------------------------------------------------------------

/// Names that a zone answers are never forwarded: the answer is sent.
pub proof fn law_local_answers_not_forwarded(
    zones: Seq<ZoneV>,
    req: RequestV,
    upstreams: Seq<Seq<char>>,
)
    ensures
        answer_spec(zones, req) matches ResolutionV::Answered(resp) ==> start_spec(
            zones,
            Some(req),
            upstreams,
        ) == (ActionV::Reply(resp), None::<ExchangeV>),
{
}

/// A name outside every zone, with no upstream configured, gets SERVFAIL.
pub proof fn law_outside_without_upstreams_servfail(zones: Seq<ZoneV>, req: RequestV)
    requires
        answer_spec(zones, req) is Outside,
    ensures
        start_spec(zones, Some(req), Seq::<Seq<char>>::empty()) == (
            ActionV::Reply(servfail_spec(req)),
            None::<ExchangeV>,
        ),
{
}

/// The decision after `k` upstream failures in a row.
pub open spec fn after_failures(x: ExchangeV, k: nat) -> (ActionV, Option<ExchangeV>)
    decreases k,
{
    if k <= 1 {
        upstream_replied_spec(x, None)
    } else {
        match after_failures(x, (k - 1) as nat).1 {
            Some(y) => upstream_replied_spec(y, None),
            None => after_failures(x, (k - 1) as nat),
        }
    }
}

/// A name outside every zone is forwarded to the upstreams in their
/// configured order, each at port 53: after `k` failures the `k`-th
/// (counting from zero) is asked, and once all have failed the client gets
/// SERVFAIL.
pub proof fn law_upstreams_in_order_then_servfail(
    zones: Seq<ZoneV>,
    req: RequestV,
    upstreams: Seq<Seq<char>>,
    k: nat,
)
    requires
        answer_spec(zones, req) is Outside,
        upstreams.len() > 0,
        1 <= k <= upstreams.len(),
    ensures
        start_spec(zones, Some(req), upstreams).0 == ActionV::Forward(
            upstream_address_spec(upstreams[0]),
        ),
        k < upstreams.len() ==> after_failures(start_spec(zones, Some(req), upstreams).1->Some_0, k)
            == (
            ActionV::Forward(upstream_address_spec(upstreams[k as int])),
            Some(ExchangeV { request: req, upstreams, current: k as int }),
        ),
        k == upstreams.len() ==> after_failures(
            start_spec(zones, Some(req), upstreams).1->Some_0,
            k,
        ).0 == ActionV::Reply(servfail_spec(req)),
    decreases k,
{
    if k > 1 {
        law_upstreams_in_order_then_servfail(zones, req, upstreams, (k - 1) as nat);
    }
}

/// A packet that does not decode as a DNS message gets no reply.
pub proof fn law_undecodable_packet_no_reply(
    zones: Seq<ZoneV>,
    packet: Seq<u8>,
    upstreams: Seq<Seq<char>>,
)
    requires
        hickory_decode_request(packet) is None,
    ensures
        start_spec(zones, hickory_decode_request(packet), upstreams) == (
            ActionV::Finish,
            None::<ExchangeV>,
        ),
{
}

/// A reply from an upstream is relayed to the client unchanged.
pub proof fn law_upstream_reply_relayed(x: ExchangeV, bytes: Seq<u8>)
    ensures
        upstream_replied_spec(x, Some(bytes)) == (ActionV::Relay(bytes), None::<ExchangeV>),
{
}

} // verus!
