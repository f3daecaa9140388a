//! Answering a query from the zone store: the most specific zone that serves
//! the name, its exact records (with a one-hop CNAME chase), its wildcard
//! records, and the SOA and NS records of the authority section.

use vstd::prelude::*;

use crate::config::{cname_code, rdata_type, type_code, RData, RDataV, SoaDataV, SoaData};
use crate::name::{in_zone, name_in_zone, names_eq, parse_chars, parse_name_spec, DnsName, NameV};
use crate::store::{Entry, EntryV, ZoneData, ZoneStore, ZoneV};
use crate::text::{
    ascii_lower_seq, chars_ascii_lower, chars_has_suffix, chars_join_dots, chars_split_dots,
    chars_trim_end_dots, has_suffix, join_dots, split_dots, trim_end_dots,
};

verus! {

// ---------------------------------------------------------------------------
// Messages
// ---------------------------------------------------------------------------

/// The question of a query: name, type code and class code.
#[derive(Clone, Debug)]
pub struct Question {
    pub name: DnsName,
    pub qtype: u16,
    pub qclass: u16,
}

/// The parts of an incoming DNS message that the server reads.
#[derive(Clone, Debug)]
pub struct Request {
    pub id: u16,
    pub recursion_desired: bool,
    /// The first question, if the message has one.
    pub question: Option<Question>,
}

/// A record of a response.
#[derive(Clone, Debug)]
pub struct ResourceRecord {
    pub owner: DnsName,
    pub ttl: u32,
    pub rdata: RData,
}

/// The response codes the server gives.
#[derive(Clone, Copy, PartialEq, Eq, Structural, Debug)]
pub enum ResponseCode {
    NoError,
    ServFail,
}

/// The message type of a DNS message.
#[derive(Clone, Copy, PartialEq, Eq, Structural, Debug)]
pub enum MessageType {
    Query,
    Response,
}

/// The operation code of a DNS message.
#[derive(Clone, Copy, PartialEq, Eq, Structural, Debug)]
pub enum OpCode {
    Query,
    Status,
    Notify,
    Update,
}

/// A DNS response message.
#[derive(Clone, Debug)]
pub struct Response {
    pub id: u16,
    pub message_type: MessageType,
    pub op_code: OpCode,
    pub recursion_desired: bool,
    pub recursion_available: bool,
    pub authoritative: bool,
    pub rcode: ResponseCode,
    /// The query's question, echoed.
    pub question: Option<Question>,
    pub answers: Vec<ResourceRecord>,
    /// The authority section (SOA and NS records).
    pub authority: Vec<ResourceRecord>,
}

/// What the store makes of a request.
#[derive(Debug)]
pub enum Resolution {
    /// The name is in a configured zone: the authoritative response.
    Answered(Response),
    /// No configured zone serves the name (or there is no question).
    Outside,
    /// A name met on the way is one hickory rejects; the server gives up on
    /// the query without replying.
    Aborted,
}

pub struct QuestionV {
    pub name: NameV,
    pub qtype: u16,
    pub qclass: u16,
}

pub struct RequestV {
    pub id: u16,
    pub recursion_desired: bool,
    pub question: Option<QuestionV>,
}

pub struct RecordV {
    pub owner: NameV,
    pub ttl: u32,
    pub rdata: RDataV,
}

pub struct ResponseV {
    pub id: u16,
    pub message_type: MessageType,
    pub op_code: OpCode,
    pub recursion_desired: bool,
    pub recursion_available: bool,
    pub authoritative: bool,
    pub rcode: ResponseCode,
    pub question: Option<QuestionV>,
    pub answers: Seq<RecordV>,
    pub authority: Seq<RecordV>,
}

pub enum ResolutionV {
    Answered(ResponseV),
    Outside,
    Aborted,
}

impl View for Question {
    type V = QuestionV;

    open spec fn view(&self) -> QuestionV {
        QuestionV { name: self.name@, qtype: self.qtype, qclass: self.qclass }
    }
}

/// The value of an optional question.
pub open spec fn opt_question_view(q: Option<Question>) -> Option<QuestionV> {
    match q {
        Some(q) => Some(q@),
        None => None,
    }
}

impl View for Request {
    type V = RequestV;

    open spec fn view(&self) -> RequestV {
        RequestV {
            id: self.id,
            recursion_desired: self.recursion_desired,
            question: opt_question_view(self.question),
        }
    }
}

impl View for ResourceRecord {
    type V = RecordV;

    open spec fn view(&self) -> RecordV {
        RecordV { owner: self.owner@, ttl: self.ttl, rdata: self.rdata@ }
    }
}

/// The values of a list of records.
pub open spec fn records_view(v: Seq<ResourceRecord>) -> Seq<RecordV> {
    v.map_values(|r: ResourceRecord| r@)
}

impl View for Response {
    type V = ResponseV;

    open spec fn view(&self) -> ResponseV {
        ResponseV {
            id: self.id,
            message_type: self.message_type,
            op_code: self.op_code,
            recursion_desired: self.recursion_desired,
            recursion_available: self.recursion_available,
            authoritative: self.authoritative,
            rcode: self.rcode,
            question: opt_question_view(self.question),
            answers: records_view(self.answers@),
            authority: records_view(self.authority@),
        }
    }
}

impl View for Resolution {
    type V = ResolutionV;

    open spec fn view(&self) -> ResolutionV {
        match self {
            Resolution::Answered(r) => ResolutionV::Answered(r@),
            Resolution::Outside => ResolutionV::Outside,
            Resolution::Aborted => ResolutionV::Aborted,
        }
    }
}

impl Question {
    pub fn copy(&self) -> (r: Question)
        ensures
            r@ == self@,
    {
        Question { name: self.name.copy(), qtype: self.qtype, qclass: self.qclass }
    }
}

/// A copy of an optional question.
pub fn copy_question(q: &Option<Question>) -> (r: Option<Question>)
    ensures
        opt_question_view(r) == opt_question_view(*q),
{
    match q {
        Some(q) => Some(q.copy()),
        None => None,
    }
}

// ---------------------------------------------------------------------------
// Specification of answering
// ---------------------------------------------------------------------------

/// A zone serves a name when its origin is the name or one of the name's
/// ancestors: the origin's labels are the name's last labels, up to ASCII case.
pub open spec fn zone_serves(z: ZoneV, q: NameV) -> bool {
    in_zone(q, z.origin)
}

/// The zone that serves a name: among the serving zones, one with the most
/// labels in its origin, the last such in configuration order.
pub open spec fn best_zone(zones: Seq<ZoneV>, q: NameV) -> Option<int>
    decreases zones.len(),
{
    if zones.len() == 0 {
        None
    } else {
        let prev = best_zone(zones.drop_last(), q);
        let i = zones.len() - 1;
        if zone_serves(zones[i], q) {
            match prev {
                None => Some(i),
                Some(j) => if zones[i].origin.labels >= zones[j].origin.labels {
                    Some(i)
                } else {
                    Some(j)
                },
            }
        } else {
            prev
        }
    }
}

/// Some record of the list belongs to the name.
pub open spec fn has_name(es: Seq<EntryV>, n: NameV) -> bool {
    exists|i: int| 0 <= i < es.len() && names_eq(#[trigger] es[i].name, n)
}

/// The records of the list that belong to the name and have the type code,
/// in order.
pub open spec fn select(es: Seq<EntryV>, n: NameV, code: u16) -> Seq<EntryV>
    decreases es.len(),
{
    if es.len() == 0 {
        Seq::<EntryV>::empty()
    } else {
        let e = es.last();
        if names_eq(e.name, n) && type_code(rdata_type(e.rdata)) == code {
            select(es.drop_last(), n, code).push(e)
        } else {
            select(es.drop_last(), n, code)
        }
    }
}

/// Response records made of stored records, all with the given owner.
pub open spec fn owned_records(es: Seq<EntryV>, owner: NameV) -> Seq<RecordV> {
    es.map_values(|e: EntryV| RecordV { owner: owner, ttl: e.ttl, rdata: e.rdata })
}

/// A `u32` SOA timer as the signed value hickory stores (capped at `i32::MAX`).
pub open spec fn clamp_i32(v: u32) -> i32 {
    if v > 0x7fff_ffff {
        0x7fff_ffff
    } else {
        v as i32
    }
}

/// The NS records of a zone, owned by its origin.
pub open spec fn ns_records(z: ZoneV) -> Seq<RecordV> {
    z.ns.map_values(
        |n: NameV| RecordV { owner: z.origin, ttl: z.default_ttl, rdata: RDataV::Ns(n) },
    )
}

/// The zone's SOA record followed by its NS records; `None` where the SOA's
/// mname or rname is one hickory rejects.
pub open spec fn authority_spec(z: ZoneV) -> Option<Seq<RecordV>> {
    match parse_name_spec(z.soa.mname) {
        None => None,
        Some(m) => match parse_name_spec(z.soa.rname) {
            None => None,
            Some(r) => {
                let soa = SoaDataV {
                    mname: m,
                    rname: r,
                    serial: z.soa.serial,
                    refresh: clamp_i32(z.soa.refresh),
                    retry: clamp_i32(z.soa.retry),
                    expire: clamp_i32(z.soa.expire),
                    minimum: z.soa.minimum,
                };
                Some(
                    seq![
                        RecordV {
                            owner: z.origin,
                            ttl: z.default_ttl,
                            rdata: RDataV::Soa(soa),
                        },
                    ] + ns_records(z),
                )
            },
        },
    }
}

/// The zone serving a name, if that zone has exact records for the name.
pub open spec fn lookup_exact_spec(zones: Seq<ZoneV>, n: NameV) -> Option<int> {
    match best_zone(zones, n) {
        Some(j) => if has_name(zones[j].exact, n) {
            Some(j)
        } else {
            None
        },
        None => None,
    }
}

/// One CNAME step: the CNAME record itself, then, where the target has exact
/// records in the zone serving it, its records of the queried type and that
/// zone's authority records.
pub open spec fn chase_step(
    zones: Seq<ZoneV>,
    qname: NameV,
    e: EntryV,
    code: u16,
    answers: Seq<RecordV>,
    authority: Seq<RecordV>,
) -> Option<(Seq<RecordV>, Seq<RecordV>)> {
    let answers1 = answers.push(RecordV { owner: qname, ttl: e.ttl, rdata: e.rdata });
    match e.rdata {
        RDataV::Cname(target) => match lookup_exact_spec(zones, target) {
            None => Some((answers1, authority)),
            Some(j) => match authority_spec(zones[j]) {
                None => None,
                Some(a) => Some(
                    (
                        answers1 + owned_records(
                            select(zones[j].exact, target, code),
                            target,
                        ),
                        authority + a,
                    ),
                ),
            },
        },
        _ => Some((answers1, authority)),
    }
}

/// The CNAME records of a name, each followed one hop, in order.
pub open spec fn chase_spec(zones: Seq<ZoneV>, qname: NameV, cnames: Seq<EntryV>, code: u16) -> Option<
    (Seq<RecordV>, Seq<RecordV>),
>
    decreases cnames.len(),
{
    if cnames.len() == 0 {
        Some((Seq::<RecordV>::empty(), Seq::<RecordV>::empty()))
    } else {
        match chase_spec(zones, qname, cnames.drop_last(), code) {
            None => None,
            Some((ans, auth)) => chase_step(zones, qname, cnames.last(), code, ans, auth),
        }
    }
}

/// The answer from exact records: `Some(None)` where they do not answer,
/// `Some(Some((answers, authority)))` where they do, `None` on a rejected name.
pub open spec fn exact_phase_spec(zones: Seq<ZoneV>, zone: ZoneV, q: QuestionV) -> Option<
    Option<(Seq<RecordV>, Seq<RecordV>)>,
> {
    if !has_name(zone.exact, q.name) {
        Some(None)
    } else {
        let recs = select(zone.exact, q.name, q.qtype);
        if recs.len() > 0 {
            Some(Some((owned_records(recs, q.name), Seq::<RecordV>::empty())))
        } else if q.qtype != cname_code() {
            let cnames = select(zone.exact, q.name, cname_code());
            if cnames.len() > 0 {
                match chase_spec(zones, q.name, cnames, q.qtype) {
                    None => None,
                    Some(r) => Some(Some(r)),
                }
            } else {
                Some(None)
            }
        } else {
            Some(None)
        }
    }
}

/// The wildcard suffix candidate that starts at piece `i` of a query name.
pub open spec fn suffix_text(parts: Seq<Seq<char>>, i: int) -> Seq<char> {
    join_dots(parts.subrange(i, parts.len() as int)).push('.')
}

/// Tries the suffixes starting at pieces `i..=last`, longest first: the
/// first that hickory accepts and the zone has wildcard records for.
pub open spec fn wild_scan_spec(wild: Seq<EntryV>, parts: Seq<Seq<char>>, i: int, last: int) -> Option<
    Option<NameV>,
>
    decreases last + 1 - i,
{
    if i > last {
        Some(None)
    } else {
        match parse_name_spec(suffix_text(parts, i)) {
            None => None,
            Some(sn) => if has_name(wild, sn) {
                Some(Some(sn))
            } else {
                wild_scan_spec(wild, parts, i + 1, last)
            },
        }
    }
}

/// The wildcard suffix matching a query name in a zone (the name's text must
/// end with the origin's, up to ASCII case): `Some(None)` where none matches,
/// `None` where a candidate suffix is rejected by hickory.
pub open spec fn find_wildcard_spec(q: NameV, zone: ZoneV) -> Option<Option<NameV>> {
    if !has_suffix(ascii_lower_seq(q.ascii), ascii_lower_seq(zone.origin.ascii)) {
        Some(None)
    } else {
        let qparts = split_dots(trim_end_dots(q.ascii));
        let zparts = split_dots(trim_end_dots(zone.origin.ascii));
        if qparts.len() <= zparts.len() {
            Some(None)
        } else {
            wild_scan_spec(zone.wild, qparts, 1, qparts.len() - zparts.len())
        }
    }
}

/// The answers from wildcard records (possibly none); `None` on a rejected name.
pub open spec fn wildcard_phase_spec(zone: ZoneV, q: QuestionV) -> Option<Seq<RecordV>> {
    match find_wildcard_spec(q.name, zone) {
        None => None,
        Some(None) => Some(Seq::<RecordV>::empty()),
        Some(Some(sn)) => {
            let recs = select(zone.wild, sn, q.qtype);
            if recs.len() > 0 {
                Some(owned_records(recs, q.name))
            } else if q.qtype != cname_code() {
                Some(owned_records(select(zone.wild, sn, cname_code()), q.name))
            } else {
                Some(Seq::<RecordV>::empty())
            }
        },
    }
}

/// The authoritative response with the given answers, the given extra
/// authority records, and the zone's SOA and NS records at the end.
pub open spec fn respond_spec(
    zone: ZoneV,
    req: RequestV,
    answers: Seq<RecordV>,
    authority: Seq<RecordV>,
) -> ResolutionV {
    match authority_spec(zone) {
        None => ResolutionV::Aborted,
        Some(a) => ResolutionV::Answered(
            ResponseV {
                id: req.id,
                message_type: MessageType::Response,
                op_code: OpCode::Query,
                recursion_desired: req.recursion_desired,
                recursion_available: false,
                authoritative: true,
                rcode: ResponseCode::NoError,
                question: req.question,
                answers,
                authority: authority + a,
            },
        ),
    }
}

/// What the store makes of a request.
pub open spec fn answer_spec(zones: Seq<ZoneV>, req: RequestV) -> ResolutionV {
    match req.question {
        None => ResolutionV::Outside,
        Some(q) => match best_zone(zones, q.name) {
            None => ResolutionV::Outside,
            Some(zi) => {
                let zone = zones[zi];
                match exact_phase_spec(zones, zone, q) {
                    None => ResolutionV::Aborted,
                    Some(Some((ans, auth))) => respond_spec(zone, req, ans, auth),
                    Some(None) => match wildcard_phase_spec(zone, q) {
                        None => ResolutionV::Aborted,
                        Some(ans) => respond_spec(zone, req, ans, Seq::<RecordV>::empty()),
                    },
                }
            },
        },
    }
}

// ---------------------------------------------------------------------------
// Proof helpers
// ---------------------------------------------------------------------------

proof fn lemma_best_zone_in_range(zones: Seq<ZoneV>, q: NameV)
    ensures
        best_zone(zones, q) matches Some(i) ==> 0 <= i < zones.len() && zone_serves(zones[i], q),
    decreases zones.len(),
{
    if zones.len() > 0 {
        lemma_best_zone_in_range(zones.drop_last(), q);
    }
}

proof fn lemma_chase_stops(
    zones: Seq<ZoneV>,
    qname: NameV,
    cnames: Seq<EntryV>,
    code: u16,
    i: int,
    k: int,
)
    requires
        0 <= i <= k <= cnames.len(),
        chase_spec(zones, qname, cnames.take(i), code) is None,
    ensures
        chase_spec(zones, qname, cnames.take(k), code) is None,
    decreases k - i,
{
    if k > i {
        lemma_chase_stops(zones, qname, cnames, code, i, k - 1);
        assert(cnames.take(k).drop_last() =~= cnames.take(k - 1));
    }
}

// ---------------------------------------------------------------------------
// Executable answering
// ---------------------------------------------------------------------------

/// Whether some record of the list belongs to the name.
fn entries_have_name(es: &Vec<Entry>, n: &DnsName) -> (r: bool)
    ensures
        r == has_name(crate::store::entries_view(es@), n@),
{
    let ghost ev = crate::store::entries_view(es@);
    let mut i: usize = 0;
    while i < es.len()
        invariant
            i <= es.len(),
            ev == crate::store::entries_view(es@),
            forall|j: int| 0 <= j < i ==> !names_eq(#[trigger] ev[j].name, n@),
        decreases es.len() - i,
    {
        if es[i].name.same_name(n) {
            assert(names_eq(ev[i as int].name, n@));
            return true;
        }
        i = i + 1;
    }
    false
}

/// The records of the list that belong to the name and have the type code.
fn select_entries(es: &Vec<Entry>, n: &DnsName, code: u16) -> (r: Vec<Entry>)
    ensures
        crate::store::entries_view(r@) == select(crate::store::entries_view(es@), n@, code),
{
    let ghost ev = crate::store::entries_view(es@);
    let mut out: Vec<Entry> = Vec::new();
    let mut i: usize = 0;
    assert(ev.take(0) =~= Seq::<EntryV>::empty());
    assert(crate::store::entries_view(out@) =~= Seq::<EntryV>::empty());
    while i < es.len()
        invariant
            i <= es.len(),
            ev == crate::store::entries_view(es@),
            crate::store::entries_view(out@) == select(ev.take(i as int), n@, code),
        decreases es.len() - i,
    {
        assert(ev.take(i + 1).drop_last() =~= ev.take(i as int));
        assert(ev.take(i + 1).last() == es@[i as int]@);
        let e = &es[i];
        if e.name.same_name(n) && e.rdata.record_type().code() == code {
            let ghost before = crate::store::entries_view(out@);
            let c = Entry { name: e.name.copy(), rdata: e.rdata.copy(), ttl: e.ttl };
            out.push(c);
            assert(crate::store::entries_view(out@) =~= before.push(es@[i as int]@));
        }
        i = i + 1;
    }
    assert(ev.take(es.len() as int) =~= ev);
    out
}

/// Appends response records made of stored records with the given owner.
fn push_owned(out: &mut Vec<ResourceRecord>, es: &Vec<Entry>, owner: &DnsName)
    ensures
        records_view(final(out)@) == records_view(old(out)@) + owned_records(
            crate::store::entries_view(es@),
            owner@,
        ),
{
    let ghost start = records_view(out@);
    let ghost target = owned_records(crate::store::entries_view(es@), owner@);
    let mut i: usize = 0;
    while i < es.len()
        invariant
            i <= es.len(),
            target == owned_records(crate::store::entries_view(es@), owner@),
            records_view(out@) == start + target.take(i as int),
        decreases es.len() - i,
    {
        let ghost before = records_view(out@);
        let rec = ResourceRecord { owner: owner.copy(), ttl: es[i].ttl, rdata: es[i].rdata.copy() };
        out.push(rec);
        assert(target.take(i + 1) =~= target.take(i as int).push(target[i as int]));
        assert(records_view(out@) =~= before.push(target[i as int]));
        i = i + 1;
    }
    assert(target.take(es.len() as int) =~= target);
}

/// A `u32` SOA timer as a signed value, capped at `i32::MAX`.
fn clamp_to_i32(v: u32) -> (r: i32)
    ensures
        r == clamp_i32(v),
{
    if v > 0x7fff_ffff {
        0x7fff_ffff
    } else {
        v as i32
    }
}

/// Appends the zone's SOA and NS records to the authority section; `false`
/// (and nothing appended that counts) where the SOA's mname or rname is one
/// hickory rejects.
fn add_ns_soa(out: &mut Vec<ResourceRecord>, zone: &ZoneData) -> (ok: bool)
    ensures
        match authority_spec(zone@) {
            None => !ok,
            Some(a) => ok && records_view(final(out)@) == records_view(old(out)@) + a,
        },
{
    let mc = crate::text::chars_of(zone.soa.mname.as_str());
    let mname = match parse_chars(&mc) {
        None => {
            return false;
        },
        Some(n) => n,
    };
    let rc = crate::text::chars_of(zone.soa.rname.as_str());
    let rname = match parse_chars(&rc) {
        None => {
            return false;
        },
        Some(n) => n,
    };
    let soa = SoaData {
        mname,
        rname,
        serial: zone.soa.serial,
        refresh: clamp_to_i32(zone.soa.refresh),
        retry: clamp_to_i32(zone.soa.retry),
        expire: clamp_to_i32(zone.soa.expire),
        minimum: zone.soa.minimum,
    };
    let ghost start = records_view(out@);
    out.push(
        ResourceRecord {
            owner: zone.origin.copy(),
            ttl: zone.default_ttl,
            rdata: RData::Soa(soa),
        },
    );
    let ghost with_soa = records_view(out@);
    let ghost nsr = ns_records(zone@);
    let mut i: usize = 0;
    while i < zone.ns.len()
        invariant
            i <= zone.ns.len(),
            nsr == ns_records(zone@),
            records_view(out@) == with_soa + nsr.take(i as int),
        decreases zone.ns.len() - i,
    {
        let ghost before = records_view(out@);
        out.push(
            ResourceRecord {
                owner: zone.origin.copy(),
                ttl: zone.default_ttl,
                rdata: RData::Ns(zone.ns[i].copy()),
            },
        );
        assert(nsr.take(i + 1) =~= nsr.take(i as int).push(nsr[i as int]));
        assert(records_view(out@) =~= before.push(nsr[i as int]));
        i = i + 1;
    }
    assert(nsr.take(zone.ns.len() as int) =~= nsr);
    assert(records_view(out@) =~= start + authority_spec(zone@)->Some_0);
    true
}

impl ZoneStore {
    /// The index of the zone that serves a name.
    fn find_zone(&self, name: &DnsName) -> (r: Option<usize>)
        ensures
            match r {
                Some(i) => best_zone(self@, name@) == Some(i as int),
                None => best_zone(self@, name@) is None,
            },
    {
        let ghost zs = self@;
        let mut best: Option<usize> = None;
        let mut i: usize = 0;
        proof {
            self.lemma_view();
        }
        assert(zs.take(0) =~= Seq::<ZoneV>::empty());
        while i < self.zones.len()
            invariant
                i <= self.zones.len(),
                zs == self@,
                zs == self.zones@.map_values(|z: ZoneData| z@),
                match best {
                    Some(b) => best_zone(zs.take(i as int), name@) == Some(b as int),
                    None => best_zone(zs.take(i as int), name@) is None,
                },
            decreases self.zones.len() - i,
        {
            let ghost pre = zs.take(i as int);
            let ghost cur = zs.take(i + 1);
            assert(cur.drop_last() =~= pre);
            assert(cur[i as int] == self.zones@[i as int]@);
            proof {
                lemma_best_zone_in_range(pre, name@);
            }
            let z = &self.zones[i];
            if name_in_zone(name, &z.origin) {
                match best {
                    None => {
                        best = Some(i);
                    },
                    Some(b) => {
                        assert(cur[b as int] == pre[b as int]);
                        if z.origin.labels >= self.zones[b].origin.labels {
                            best = Some(i);
                        }
                    },
                }
            }
            i = i + 1;
        }
        assert(zs.take(self.zones.len() as int) =~= zs);
        best
    }

    /// The index of the zone serving a name, if it holds exact records for it.
    fn lookup_exact(&self, name: &DnsName) -> (r: Option<usize>)
        ensures
            match r {
                Some(i) => lookup_exact_spec(self@, name@) == Some(i as int) && i < self@.len(),
                None => lookup_exact_spec(self@, name@) is None,
            },
    {
        proof {
            self.lemma_view();
            lemma_best_zone_in_range(self@, name@);
        }
        match self.find_zone(name) {
            Some(j) => {
                assert(self@[j as int] == self.zones@[j as int]@);
                if entries_have_name(&self.zones[j].exact, name) {
                    Some(j)
                } else {
                    None
                }
            },
            None => None,
        }
    }

    /// Follows each CNAME record one hop.
    fn chase(
        &self,
        qname: &DnsName,
        cnames: &Vec<Entry>,
        code: u16,
        answers: &mut Vec<ResourceRecord>,
        authority: &mut Vec<ResourceRecord>,
    ) -> (ok: bool)
        requires
            records_view(old(answers)@) == Seq::<RecordV>::empty(),
            records_view(old(authority)@) == Seq::<RecordV>::empty(),
        ensures
            match chase_spec(self@, qname@, crate::store::entries_view(cnames@), code) {
                None => !ok,
                Some((ans, auth)) => ok && records_view(final(answers)@) == ans && records_view(
                    final(authority)@,
                ) == auth,
            },
    {
        let ghost cs = crate::store::entries_view(cnames@);
        let mut i: usize = 0;
        assert(cs.take(0) =~= Seq::<EntryV>::empty());
        while i < cnames.len()
            invariant
                i <= cnames.len(),
                cs == crate::store::entries_view(cnames@),
                chase_spec(self@, qname@, cs.take(i as int), code) == Some(
                    (records_view(answers@), records_view(authority@)),
                ),
            decreases cnames.len() - i,
        {
            assert(cs.take(i + 1).drop_last() =~= cs.take(i as int));
            assert(cs.take(i + 1).last() == cnames@[i as int]@);
            let e = &cnames[i];
            let ghost ans0 = records_view(answers@);
            let ghost auth0 = records_view(authority@);
            answers.push(ResourceRecord { owner: qname.copy(), ttl: e.ttl, rdata: e.rdata.copy() });
            assert(records_view(answers@) =~= ans0.push(
                RecordV { owner: qname@, ttl: e@.ttl, rdata: e@.rdata },
            ));
            match &e.rdata {
                RData::Cname(target) => {
                    match self.lookup_exact(target) {
                        None => {},
                        Some(j) => {
                            proof {
                                self.lemma_view();
                            }
                            let zone = &self.zones[j];
                            assert(self@[j as int] == zone@);
                            let recs = select_entries(&zone.exact, target, code);
                            push_owned(answers, &recs, target);
                            if !add_ns_soa(authority, zone) {
                                proof {
                                    lemma_chase_stops(
                                        self@,
                                        qname@,
                                        cs,
                                        code,
                                        i + 1,
                                        cs.len() as int,
                                    );
                                    assert(cs.take(cs.len() as int) =~= cs);
                                }
                                return false;
                            }
                        },
                    }
                },
                _ => {},
            }
            i = i + 1;
        }
        assert(cs.take(cnames.len() as int) =~= cs);
        true
    }

    /// Finds the wildcard suffix under which a query name has records.
    fn find_wildcard(&self, qname: &DnsName, zone: &ZoneData) -> (r: Option<Option<DnsName>>)
        ensures
            match r {
                None => find_wildcard_spec(qname@, zone@) is None,
                Some(None) => find_wildcard_spec(qname@, zone@) == Some(None::<NameV>),
                Some(Some(n)) => find_wildcard_spec(qname@, zone@) == Some(Some(n@)),
            },
    {
        let q_lower = chars_ascii_lower(&qname.ascii);
        let z_lower = chars_ascii_lower(&zone.origin.ascii);
        if !chars_has_suffix(&q_lower, &z_lower) {
            return Some(None);
        }
        let q_no_dot = chars_trim_end_dots(&qname.ascii);
        let z_no_dot = chars_trim_end_dots(&zone.origin.ascii);
        let qparts = chars_split_dots(&q_no_dot);
        let zparts = chars_split_dots(&z_no_dot);
        let ghost qp = split_dots(trim_end_dots(qname@.ascii));
        assert(qparts@.map_values(|p: Vec<char>| p@) =~= qp);
        proof {
            crate::text::lemma_split_dots_nonempty(z_no_dot@);
        }
        if qparts.len() <= zparts.len() {
            return Some(None);
        }
        let last = qparts.len() - zparts.len();
        let ghost wild = zone@.wild;
        let mut i: usize = 1;
        while i <= last
            invariant
                1 <= i <= last + 1,
                last < qparts.len(),
                last == qp.len() - split_dots(trim_end_dots(zone@.origin.ascii)).len(),
                qparts@.map_values(|p: Vec<char>| p@) == qp,
                wild == zone@.wild,
                find_wildcard_spec(qname@, zone@) == wild_scan_spec(wild, qp, i as int, last as int),
            decreases last + 1 - i,
        {
            let joined = chars_join_dots(&qparts, i);
            let mut suffix = joined;
            suffix.push('.');
            assert(qparts@.subrange(i as int, qparts.len() as int).map_values(|p: Vec<char>| p@)
                =~= qp.subrange(i as int, qp.len() as int));
            assert(suffix@ == suffix_text(qp, i as int));
            match parse_chars(&suffix) {
                None => {
                    return None;
                },
                Some(sn) => {
                    if entries_have_name(&zone.wild, &sn) {
                        return Some(Some(sn));
                    }
                },
            }
            i = i + 1;
        }
        Some(None)
    }

    /// Resolves a request against the store. Where a name met on the way is one
    /// that hickory rejects, the server gives up on the query: `Aborted`.
    pub fn answer_checked(&self, req: &Request) -> (r: Resolution)
        ensures
            r@ == answer_spec(self@, req@),
    {
        let q = match &req.question {
            None => {
                return Resolution::Outside;
            },
            Some(q) => q,
        };
        let zi = match self.find_zone(&q.name) {
            None => {
                return Resolution::Outside;
            },
            Some(zi) => zi,
        };
        proof {
            self.lemma_view();
            lemma_best_zone_in_range(self@, q@.name);
        }
        let zone = &self.zones[zi];
        assert(self@[zi as int] == zone@);
        let mut answers: Vec<ResourceRecord> = Vec::new();
        let mut authority: Vec<ResourceRecord> = Vec::new();
        assert(records_view(answers@) =~= Seq::<RecordV>::empty());
        assert(records_view(authority@) =~= Seq::<RecordV>::empty());
        let mut answered = false;
        if entries_have_name(&zone.exact, &q.name) {
            let recs = select_entries(&zone.exact, &q.name, q.qtype);
            if recs.len() > 0 {
                push_owned(&mut answers, &recs, &q.name);
                answered = true;
            } else if q.qtype != 5 {
                let cnames = select_entries(&zone.exact, &q.name, 5);
                if cnames.len() > 0 {
                    if !self.chase(&q.name, &cnames, q.qtype, &mut answers, &mut authority) {
                        return Resolution::Aborted;
                    }
                    answered = true;
                }
            }
        }
        if !answered {
            assert(exact_phase_spec(self@, zone@, q@) == Some(
                None::<(Seq<RecordV>, Seq<RecordV>)>,
            ));
            match self.find_wildcard(&q.name, zone) {
                None => {
                    return Resolution::Aborted;
                },
                Some(None) => {},
                Some(Some(sn)) => {
                    let recs = select_entries(&zone.wild, &sn, q.qtype);
                    if recs.len() > 0 {
                        push_owned(&mut answers, &recs, &q.name);
                    } else if q.qtype != 5 {
                        let cnames = select_entries(&zone.wild, &sn, 5);
                        push_owned(&mut answers, &cnames, &q.name);
                    }
                },
            }
        }
        if !add_ns_soa(&mut authority, zone) {
            return Resolution::Aborted;
        }
        Resolution::Answered(
            Response {
                id: req.id,
                message_type: MessageType::Response,
                op_code: OpCode::Query,
                recursion_desired: req.recursion_desired,
                recursion_available: false,
                authoritative: true,
                rcode: ResponseCode::NoError,
                question: copy_question(&req.question),
                answers,
                authority,
            },
        )
    }

    /// The authoritative response to a request, or `None` where no configured
    /// zone serves its name, for requests on which the server does not give up.
    pub fn answer(&self, req: &Request) -> (r: Option<Response>)
        requires
            !(answer_spec(self@, req@) is Aborted),
        ensures
            match r {
                Some(resp) => answer_spec(self@, req@) == ResolutionV::Answered(resp@),
                None => answer_spec(self@, req@) is Outside,
            },
    {
        match self.answer_checked(req) {
            Resolution::Answered(resp) => Some(resp),
            _ => None,
        }
    }
}

} // verus!
