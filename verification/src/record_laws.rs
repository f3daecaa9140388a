//! Properties of the records a configuration yields and of the records an
//! answer holds: owner names, record data, zone membership, the authority
//! section and CNAME answers.

use vstd::prelude::*;

use crate::answer::{
    answer_spec, authority_spec, best_zone, chase_spec, lookup_exact_spec, select, RecordV,
    RequestV, ResolutionV,
};
use crate::config::{build_rdata_spec, cname_code, ConfigErrorV, RDataV, RecordCfgV, RecordType};
use crate::laws::{lemma_select_members, law_most_specific_zone};
use crate::name::{in_zone, label_lower, labels_lower, names_eq, parse_name_spec, value_to_name_spec, NameV};
use crate::store::{record_key_spec, EntryV, ZoneV};
use crate::text::{ends_with_char, has_prefix, trim_start_pattern};

verus! {

// ---------------------------------------------------------------------------
// Zone membership
// ---------------------------------------------------------------------------

/// A name lies in the zone of an origin exactly when the origin has no more
/// labels than the name and every one of the origin's labels equals, up to
/// ASCII case, the name's label at the same place counted from the end.
pub proof fn law_zone_membership_is_label_wise(n: NameV, o: NameV)
    ensures
        in_zone(n, o) <==> (o.wire.len() <= n.wire.len() && forall|k: int|
            0 <= k < o.wire.len() ==> label_lower(
                #[trigger] n.wire[n.wire.len() - o.wire.len() + k],
            ) == label_lower(o.wire[k])),
{
    let off = n.wire.len() - o.wire.len();
    if o.wire.len() <= n.wire.len() {
        let sq = labels_lower(n.wire).subrange(off, n.wire.len() as int);
        let so = labels_lower(o.wire);
        if in_zone(n, o) {
            assert forall|k: int| 0 <= k < o.wire.len() implies label_lower(
                #[trigger] n.wire[off + k],
            ) == label_lower(o.wire[k]) by {
                assert(sq[k] == so[k]);
            }
        }
        if forall|k: int|
            0 <= k < o.wire.len() ==> label_lower(#[trigger] n.wire[off + k]) == label_lower(
                o.wire[k],
            ) {
            assert(sq =~= so) by {
                assert forall|k: int| 0 <= k < o.wire.len() implies #[trigger] sq[k] == so[k] by {
                    assert(label_lower(n.wire[off + k]) == label_lower(o.wire[k]));
                }
            }
        }
    }
}

/// The zone chosen for a name has an origin whose every label is the name's
/// label at the same place counted from the end (up to ASCII case).
pub proof fn law_chosen_origin_is_ancestor(zones: Seq<ZoneV>, q: NameV)
    ensures
        best_zone(zones, q) matches Some(i) ==> {
            let o = zones[i].origin;
            &&& o.wire.len() <= q.wire.len()
            &&& forall|k: int|
                0 <= k < o.wire.len() ==> label_lower(
                    #[trigger] q.wire[q.wire.len() - o.wire.len() + k],
                ) == label_lower(o.wire[k])
        },
{
    law_most_specific_zone(zones, q);
    if let Some(i) = best_zone(zones, q) {
        law_zone_membership_is_label_wise(q, zones[i].origin);
    }
}

// ---------------------------------------------------------------------------
// Owner names of configured records
// ---------------------------------------------------------------------------

/// A configured record name ending in `.` is absolute: the record is stored,
/// as an exact record, under the name parsed from that text alone, whatever
/// the zone's origin.
pub proof fn law_absolute_record_name(name: Seq<char>, origin: NameV)
    requires
        name != "@"@,
        !has_prefix(name, "*."@),
        ends_with_char(name, '.'),
    ensures
        record_key_spec(name, origin) == match parse_name_spec(name) {
            None => None,
            Some(n) => Some((false, n)),
        },
{
}

/// The owner of an exact record is the name its text denotes inside the
/// zone, exactly as for a record value: `@` is the origin, an absolute name
/// stands for itself, and a relative one is taken below the origin.
pub proof fn law_record_names_resolve_like_values(name: Seq<char>, origin: NameV)
    requires
        !has_prefix(name, "*."@),
    ensures
        record_key_spec(name, origin) == match value_to_name_spec(name, origin) {
            None => None,
            Some(n) => Some((false, n)),
        },
{
}

/// The suffix of a wildcard record `*.suffix` is resolved inside the zone as
/// a value is (absolute if it ends in `.`, else below the origin), and the
/// record is stored among the wildcard records.
pub proof fn law_wildcard_suffix_resolves_like_values(name: Seq<char>, origin: NameV)
    requires
        has_prefix(name, "*."@),
        trim_start_pattern(name, "*."@) != "@"@,
    ensures
        record_key_spec(name, origin) == match value_to_name_spec(
            trim_start_pattern(name, "*."@),
            origin,
        ) {
            None => None,
            Some(n) => Some((true, n)),
        },
{
    reveal_strlit("@");
    reveal_strlit("*.");
    assert(name != "@"@) by {
        assert("@"@.len() == 1);
        assert("*."@.len() == 2);
    }
}

// ---------------------------------------------------------------------------
// Record data
// ---------------------------------------------------------------------------

/// The exchange of an MX record is its value resolved inside the zone, exactly
/// as the target of a CNAME or NS record with the same value is.
pub proof fn law_mx_exchange_resolved_like_targets(
    rc: RecordCfgV,
    origin: NameV,
    p: u16,
    v: Seq<char>,
)
    requires
        rc.preference == Some(p),
        rc.value == Some(v),
    ensures
        build_rdata_spec(RecordType::Mx, rc, origin) == match value_to_name_spec(v, origin) {
            None => None,
            Some(n) => Some(Ok::<RDataV, ConfigErrorV>(RDataV::Mx(p, n))),
        },
        build_rdata_spec(RecordType::Cname, rc, origin) matches Some(Ok(RDataV::Cname(n)))
            ==> build_rdata_spec(RecordType::Mx, rc, origin) == Some(
            Ok::<RDataV, ConfigErrorV>(RDataV::Mx(p, n)),
        ),
        build_rdata_spec(RecordType::Ns, rc, origin) matches Some(Ok(RDataV::Ns(n)))
            ==> build_rdata_spec(RecordType::Mx, rc, origin) == Some(
            Ok::<RDataV, ConfigErrorV>(RDataV::Mx(p, n)),
        ),
        build_rdata_spec(RecordType::Cname, rc, origin) is None <==> build_rdata_spec(
            RecordType::Mx,
            rc,
            origin,
        ) is None,
{
}

/// The data of a configured record, by type: a missing value is reported
/// with the record's type (an MX record's missing preference first), SOA data
/// is refused in records, TXT keeps its text verbatim, and CNAME and NS
/// targets are their values resolved inside the zone.
pub proof fn law_record_data_by_type(t: RecordType, rc: RecordCfgV, origin: NameV)
    ensures
        t == RecordType::Soa ==> build_rdata_spec(t, rc, origin) == Some(
            Err::<RDataV, ConfigErrorV>(ConfigErrorV::SoaInRecords),
        ),
        t == RecordType::Mx && rc.preference is None ==> build_rdata_spec(t, rc, origin) == Some(
            Err::<RDataV, ConfigErrorV>(ConfigErrorV::MissingPreference),
        ),
        t != RecordType::Soa && !(t == RecordType::Mx && rc.preference is None) && rc.value is None
            ==> build_rdata_spec(t, rc, origin) == Some(
            Err::<RDataV, ConfigErrorV>(ConfigErrorV::MissingValue(t)),
        ),
        t == RecordType::Txt && rc.value is Some ==> build_rdata_spec(t, rc, origin) == Some(
            Ok::<RDataV, ConfigErrorV>(RDataV::Txt(rc.value->Some_0)),
        ),
        t == RecordType::Cname && rc.value is Some ==> build_rdata_spec(t, rc, origin) == match value_to_name_spec(
            rc.value->Some_0,
            origin,
        ) {
            None => None,
            Some(n) => Some(Ok::<RDataV, ConfigErrorV>(RDataV::Cname(n))),
        },
        t == RecordType::Ns && rc.value is Some ==> build_rdata_spec(t, rc, origin) == match value_to_name_spec(
            rc.value->Some_0,
            origin,
        ) {
            None => None,
            Some(n) => Some(Ok::<RDataV, ConfigErrorV>(RDataV::Ns(n))),
        },
{
}

// ---------------------------------------------------------------------------
// The authority section
// ---------------------------------------------------------------------------

/// A configured SOA timer as the signed value the record carries: the timer
/// itself, or `i32::MAX` where it is larger.
pub open spec fn capped_timer(t: u32) -> int {
    if t <= 0x7fff_ffff {
        t as int
    } else {
        0x7fff_ffff
    }
}

/// The authority records of a zone are its SOA record followed by one NS
/// record per configured name server, in order, all owned by the origin with
/// the zone's TTL. The SOA record carries the parsed mname and rname and each
/// configured timer in its own field (refresh, retry and expire capped at
/// `i32::MAX`). They exist exactly when mname and rname parse.
pub proof fn law_authority_records(z: ZoneV)
    ensures
        (authority_spec(z) is Some) <==> (parse_name_spec(z.soa.mname) is Some && parse_name_spec(
            z.soa.rname,
        ) is Some),
        authority_spec(z) matches Some(a) ==> {
            &&& a.len() == z.ns.len() + 1
            &&& a[0].owner == z.origin
            &&& a[0].ttl == z.default_ttl
            &&& a[0].rdata matches RDataV::Soa(d)
            &&& parse_name_spec(z.soa.mname) == Some(d.mname)
            &&& parse_name_spec(z.soa.rname) == Some(d.rname)
            &&& d.serial == z.soa.serial
            &&& d.refresh as int == capped_timer(z.soa.refresh)
            &&& d.retry as int == capped_timer(z.soa.retry)
            &&& d.expire as int == capped_timer(z.soa.expire)
            &&& d.minimum == z.soa.minimum
            &&& forall|k: int|
                0 <= k < z.ns.len() ==> #[trigger] a[k + 1] == RecordV {
                    owner: z.origin,
                    ttl: z.default_ttl,
                    rdata: RDataV::Ns(z.ns[k]),
                }
        },
{
    if let Some(a) = authority_spec(z) {
        assert forall|k: int| 0 <= k < z.ns.len() implies #[trigger] a[k + 1] == RecordV {
            owner: z.origin,
            ttl: z.default_ttl,
            rdata: RDataV::Ns(z.ns[k]),
        } by {}
    }
}

// ---------------------------------------------------------------------------
// CNAME answers
// ---------------------------------------------------------------------------

/// Following CNAME records one hop keeps every CNAME record in the answers,
/// owned by the query name, whether or not its target has records here.
proof fn lemma_chase_keeps_cnames(zones: Seq<ZoneV>, qname: NameV, cs: Seq<EntryV>, code: u16)
    requires
        forall|j: int| 0 <= j < zones.len() ==> (#[trigger] authority_spec(zones[j])) is Some,
    ensures
        chase_spec(zones, qname, cs, code) matches Some((ans, auth)) && forall|k: int|
            0 <= k < cs.len() ==> ans.contains(
                RecordV { owner: qname, ttl: (#[trigger] cs[k]).ttl, rdata: cs[k].rdata },
            ),
    decreases cs.len(),
{
    if cs.len() > 0 {
        let pre = cs.drop_last();
        lemma_chase_keeps_cnames(zones, qname, pre, code);
        let (ans0, auth0) = chase_spec(zones, qname, pre, code)->Some_0;
        let e = cs.last();
        let r = RecordV { owner: qname, ttl: e.ttl, rdata: e.rdata };
        let ans1 = ans0.push(r);
        if let RDataV::Cname(target) = e.rdata {
            if let Some(j) = lookup_exact_spec(zones, target) {
                law_most_specific_zone(zones, target);
                assert(authority_spec(zones[j]) is Some);
            }
        }
        let (ans, auth) = chase_spec(zones, qname, cs, code)->Some_0;
        assert(ans.len() >= ans1.len());
        assert forall|i: int| 0 <= i < ans1.len() implies ans[i] == ans1[i] by {}
        assert forall|k: int| 0 <= k < cs.len() implies ans.contains(
            RecordV { owner: qname, ttl: (#[trigger] cs[k]).ttl, rdata: cs[k].rdata },
        ) by {
            let rk = RecordV { owner: qname, ttl: cs[k].ttl, rdata: cs[k].rdata };
            if k < pre.len() {
                assert(pre[k] == cs[k]);
                assert(ans0.contains(rk));
                let i = choose|i: int| 0 <= i < ans0.len() && ans0[i] == rk;
                assert(ans[i] == ans1[i]);
            } else {
                assert(ans[ans0.len() as int] == ans1[ans0.len() as int]);
            }
        }
    }
}

/// A name that has CNAME records and no record of the queried (non-CNAME)
/// type is answered with every one of its CNAME records, owned by the query
/// name, whether or not the targets have records in some zone (where every
/// zone's SOA names parse).
pub proof fn law_cname_records_always_answered(zones: Seq<ZoneV>, req: RequestV, zi: int)
    requires
        req.question matches Some(q) && best_zone(zones, q.name) == Some(zi) && select(
            zones[zi].exact,
            q.name,
            q.qtype,
        ).len() == 0 && q.qtype != cname_code() && select(
            zones[zi].exact,
            q.name,
            cname_code(),
        ).len() > 0,
        forall|j: int| 0 <= j < zones.len() ==> (#[trigger] authority_spec(zones[j])) is Some,
    ensures
        answer_spec(zones, req) matches ResolutionV::Answered(resp) && forall|k: int|
            0 <= k < select(zones[zi].exact, req.question->Some_0.name, cname_code()).len()
                ==> resp.answers.contains(
                RecordV {
                    owner: req.question->Some_0.name,
                    ttl: (#[trigger] select(
                        zones[zi].exact,
                        req.question->Some_0.name,
                        cname_code(),
                    )[k]).ttl,
                    rdata: select(zones[zi].exact, req.question->Some_0.name, cname_code())[k].rdata,
                },
            ),
{
    let q = req.question->Some_0;
    law_most_specific_zone(zones, q.name);
    let zone = zones[zi];
    let cn = select(zone.exact, q.name, cname_code());
    lemma_select_members(zone.exact, q.name, cname_code());
    assert(zone.exact.contains(cn[0]));
    let i = choose|i: int| 0 <= i < zone.exact.len() && zone.exact[i] == cn[0];
    assert(names_eq(zone.exact[i].name, q.name));
    assert(crate::answer::has_name(zone.exact, q.name));
    lemma_chase_keeps_cnames(zones, q.name, cn, q.qtype);
    assert(authority_spec(zones[zi]) is Some);
}

} // verus!
