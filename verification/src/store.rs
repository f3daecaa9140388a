//! The zone store: zones built from the configuration, each with its exact
//! records and its wildcard records.

use vstd::prelude::*;

use crate::config::{
    build_rdata, build_rdata_spec, parse_rtype, parse_rtype_spec, Config, ConfigError,
    ConfigErrorV, ConfigV, RData, RDataV, RecordCfg, RecordCfgV, Soa, SoaV, Zone, ZoneCfgV,
};
use crate::name::{
    parse_chars, parse_name_spec, value_chars_to_name, value_to_name_spec, DnsName,
    NameV,
};
use crate::text::{
    chars_concat, chars_copy, chars_ends_with, chars_eq, chars_has_prefix,
    chars_of, chars_trim_start_pattern, ends_with_char, has_prefix,
    trim_start_pattern,
};

verus! {

// ---------------------------------------------------------------------------
// Data
// ---------------------------------------------------------------------------

/// A record held by a zone: the name it belongs to (for wildcard records, the
/// suffix below the `*`), its data and its TTL.
#[derive(Clone)]
pub struct Entry {
    pub name: DnsName,
    pub rdata: RData,
    pub ttl: u32,
}

pub struct EntryV {
    pub name: NameV,
    pub rdata: RDataV,
    pub ttl: u32,
}

impl View for Entry {
    type V = EntryV;

    open spec fn view(&self) -> EntryV {
        EntryV { name: self.name@, rdata: self.rdata@, ttl: self.ttl }
    }
}

/// The values of a list of records.
pub open spec fn entries_view(v: Seq<Entry>) -> Seq<EntryV> {
    v.map_values(|e: Entry| e@)
}

/// The values of a list of names.
pub open spec fn names_view(v: Seq<DnsName>) -> Seq<NameV> {
    v.map_values(|n: DnsName| n@)
}

/// One zone as the store holds it. Records are kept in configuration order;
/// the records of a name and type are those of that name and type, in order.
#[derive(Clone)]
pub struct ZoneData {
    pub origin: DnsName,
    pub default_ttl: u32,
    pub soa: Soa,
    pub ns: Vec<DnsName>,
    pub exact: Vec<Entry>,
    pub wild: Vec<Entry>,
}

pub struct ZoneV {
    pub origin: NameV,
    pub default_ttl: u32,
    pub soa: SoaV,
    pub ns: Seq<NameV>,
    pub exact: Seq<EntryV>,
    pub wild: Seq<EntryV>,
}

impl View for ZoneData {
    type V = ZoneV;

    open spec fn view(&self) -> ZoneV {
        ZoneV {
            origin: self.origin@,
            default_ttl: self.default_ttl,
            soa: self.soa@,
            ns: names_view(self.ns@),
            exact: entries_view(self.exact@),
            wild: entries_view(self.wild@),
        }
    }
}

/// The authoritative zones, in configuration order.
#[derive(Clone)]
pub struct ZoneStore {
    pub(crate) zones: Vec<ZoneData>,
}

impl View for ZoneStore {
    type V = Seq<ZoneV>;

    closed spec fn view(&self) -> Seq<ZoneV> {
        self.zones@.map_values(|z: ZoneData| z@)
    }
}

impl ZoneStore {
    /// The store's value is the values of its zones.
    pub(crate) proof fn lemma_view(&self)
        ensures
            self@ == self.zones@.map_values(|z: ZoneData| z@),
    {
    }
}

// ---------------------------------------------------------------------------
// Building the store
// ---------------------------------------------------------------------------

/// The TTL of a configured record: its own, else the zone's.
pub open spec fn record_ttl(rc: RecordCfgV, zone_ttl: u32) -> u32 {
    match rc.ttl {
        Some(t) => t,
        None => zone_ttl,
    }
}

/// The TTL of a zone: its own, else the configuration's default.
pub open spec fn zone_ttl(z: ZoneCfgV, default_ttl: u32) -> u32 {
    match z.ttl {
        Some(t) => t,
        None => default_ttl,
    }
}

/// The configuration's default TTL, 300 where none is given.
pub open spec fn config_default_ttl(cfg: ConfigV) -> u32 {
    match cfg.default_ttl {
        Some(t) => t,
        None => 300,
    }
}

/// The zone's name servers, each resolved inside the zone; `None` where one is
/// not a name hickory accepts.
pub open spec fn ns_names_spec(ns: Seq<Seq<char>>, origin: NameV) -> Option<Seq<NameV>>
    decreases ns.len(),
{
    if ns.len() == 0 {
        Some(Seq::<NameV>::empty())
    } else {
        match ns_names_spec(ns.drop_last(), origin) {
            None => None,
            Some(p) => match value_to_name_spec(ns.last(), origin) {
                None => None,
                Some(n) => Some(p.push(n)),
            },
        }
    }
}

/// The text a relative record name stands for: itself if absolute, else
/// joined with the origin's display form.
pub open spec fn absolute_text(name: Seq<char>, origin: NameV) -> Seq<char> {
    if ends_with_char(name, '.') {
        name
    } else {
        name + seq!['.'] + origin.utf8
    }
}

/// Where a configured record goes: `(true, suffix)` for a wildcard `*.suffix`,
/// `(false, name)` for an exact name (`@` being the origin); `None` where the
/// name is not one hickory accepts.
pub open spec fn record_key_spec(name: Seq<char>, origin: NameV) -> Option<(bool, NameV)> {
    if name == "@"@ {
        Some((false, origin))
    } else if has_prefix(name, "*."@) {
        match parse_name_spec(absolute_text(trim_start_pattern(name, "*."@), origin)) {
            None => None,
            Some(n) => Some((true, n)),
        }
    } else {
        match parse_name_spec(absolute_text(name, origin)) {
            None => None,
            Some(n) => Some((false, n)),
        }
    }
}

/// Adds one configured record to a zone's exact and wildcard records.
pub open spec fn add_record_spec(
    exact: Seq<EntryV>,
    wild: Seq<EntryV>,
    rc: RecordCfgV,
    origin: NameV,
    zttl: u32,
) -> Option<Result<(Seq<EntryV>, Seq<EntryV>), ConfigErrorV>> {
    match parse_rtype_spec(rc.record_type) {
        Err(e) => Some(Err(e)),
        Ok(t) => match build_rdata_spec(t, rc, origin) {
            None => None,
            Some(Err(e)) => Some(Err(e)),
            Some(Ok(d)) => match record_key_spec(rc.name, origin) {
                None => None,
                Some((is_wild, n)) => {
                    let e = EntryV { name: n, rdata: d, ttl: record_ttl(rc, zttl) };
                    if is_wild {
                        Some(Ok((exact, wild.push(e))))
                    } else {
                        Some(Ok((exact.push(e), wild)))
                    }
                },
            },
        },
    }
}

/// A zone's exact and wildcard records, built from its configured records in
/// order; the first refused record gives the error, and `None` stands for a
/// name hickory rejects.
pub open spec fn zone_records_spec(records: Seq<RecordCfgV>, origin: NameV, zttl: u32) -> Option<
    Result<(Seq<EntryV>, Seq<EntryV>), ConfigErrorV>,
>
    decreases records.len(),
{
    if records.len() == 0 {
        Some(Ok((Seq::<EntryV>::empty(), Seq::<EntryV>::empty())))
    } else {
        match zone_records_spec(records.drop_last(), origin, zttl) {
            Some(Ok((exact, wild))) => add_record_spec(exact, wild, records.last(), origin, zttl),
            other => other,
        }
    }
}

/// One zone built from its configuration.
pub open spec fn zone_spec(z: ZoneCfgV, default_ttl: u32) -> Option<Result<ZoneV, ConfigErrorV>> {
    match parse_name_spec(z.origin) {
        None => None,
        Some(origin) => {
            let zttl = zone_ttl(z, default_ttl);
            match ns_names_spec(z.ns, origin) {
                None => None,
                Some(ns) => match zone_records_spec(z.records, origin, zttl) {
                    None => None,
                    Some(Err(e)) => Some(Err(e)),
                    Some(Ok((exact, wild))) => Some(
                        Ok(ZoneV { origin, default_ttl: zttl, soa: z.soa, ns, exact, wild }),
                    ),
                },
            }
        },
    }
}

/// All zones built in order; the first failure decides.
pub open spec fn zones_spec(zs: Seq<ZoneCfgV>, default_ttl: u32) -> Option<
    Result<Seq<ZoneV>, ConfigErrorV>,
>
    decreases zs.len(),
{
    if zs.len() == 0 {
        Some(Ok(Seq::<ZoneV>::empty()))
    } else {
        match zones_spec(zs.drop_last(), default_ttl) {
            Some(Ok(done)) => match zone_spec(zs.last(), default_ttl) {
                None => None,
                Some(Err(e)) => Some(Err(e)),
                Some(Ok(z)) => Some(Ok(done.push(z))),
            },
            other => other,
        }
    }
}

/// The zones a configuration yields: `None` where one of its names is rejected
/// by hickory, else the zones or the first refused record's error.
pub open spec fn from_config_spec(cfg: ConfigV) -> Option<Result<Seq<ZoneV>, ConfigErrorV>> {
    zones_spec(cfg.zones, config_default_ttl(cfg))
}

proof fn lemma_ns_names_stops(ns: Seq<Seq<char>>, origin: NameV, i: int, k: int)
    requires
        0 <= i <= k <= ns.len(),
        ns_names_spec(ns.take(i), origin) is None,
    ensures
        ns_names_spec(ns.take(k), origin) is None,
    decreases k - i,
{
    if k > i {
        lemma_ns_names_stops(ns, origin, i, k - 1);
        assert(ns.take(k).drop_last() =~= ns.take(k - 1));
    }
}

proof fn lemma_zone_records_stops(records: Seq<RecordCfgV>, origin: NameV, zttl: u32, i: int, k: int)
    requires
        0 <= i <= k <= records.len(),
        !(zone_records_spec(records.take(i), origin, zttl) matches Some(Ok(_))),
    ensures
        zone_records_spec(records.take(k), origin, zttl) == zone_records_spec(
            records.take(i),
            origin,
            zttl,
        ),
    decreases k - i,
{
    if k > i {
        lemma_zone_records_stops(records, origin, zttl, i, k - 1);
        assert(records.take(k).drop_last() =~= records.take(k - 1));
    }
}

proof fn lemma_zones_stops(zs: Seq<ZoneCfgV>, d: u32, i: int, k: int)
    requires
        0 <= i <= k <= zs.len(),
        !(zones_spec(zs.take(i), d) matches Some(Ok(_))),
    ensures
        zones_spec(zs.take(k), d) == zones_spec(zs.take(i), d),
    decreases k - i,
{
    if k > i {
        lemma_zones_stops(zs, d, i, k - 1);
        assert(zs.take(k).drop_last() =~= zs.take(k - 1));
    }
}

/// Resolves the zone's name servers.
fn ns_names(ns: &Vec<String>, origin: &DnsName) -> (r: Option<Vec<DnsName>>)
    ensures
        match r {
            Some(v) => ns_names_spec(crate::config::strings_view(ns@), origin@) == Some(
                names_view(v@),
            ),
            None => ns_names_spec(crate::config::strings_view(ns@), origin@) is None,
        },
{
    let ghost texts = crate::config::strings_view(ns@);
    let mut out: Vec<DnsName> = Vec::new();
    let mut i: usize = 0;
    while i < ns.len()
        invariant
            i <= ns.len(),
            texts == crate::config::strings_view(ns@),
            ns_names_spec(texts.take(i as int), origin@) == Some(names_view(out@)),
        decreases ns.len() - i,
    {
        assert(texts.take(i + 1).drop_last() =~= texts.take(i as int));
        let v = chars_of(ns[i].as_str());
        match value_chars_to_name(&v, origin) {
            None => {
                proof {
                    lemma_ns_names_stops(texts, origin@, i + 1, texts.len() as int);
                    assert(texts.take(texts.len() as int) =~= texts);
                }
                return None;
            },
            Some(n) => {
                out.push(n);
                i = i + 1;
                assert(names_view(out@) =~= names_view(out@).drop_last().push(out@.last()@));
            },
        }
    }
    assert(texts.take(ns.len() as int) =~= texts);
    Some(out)
}

/// The text a relative record name stands for.
fn absolute_chars(name: &Vec<char>, origin: &DnsName) -> (r: Vec<char>)
    ensures
        r@ == absolute_text(name@, origin@),
{
    if chars_ends_with(name, '.') {
        chars_copy(name)
    } else {
        let mut dotted = chars_copy(name);
        dotted.push('.');
        let full = chars_concat(&dotted, &origin.utf8);
        assert(full@ =~= name@ + seq!['.'] + origin@.utf8);
        full
    }
}

/// Where a configured record goes (wildcard or exact, and under which name).
fn record_key(name: &String, origin: &DnsName) -> (r: Option<(bool, DnsName)>)
    ensures
        match r {
            Some((w, n)) => record_key_spec(name@, origin@) == Some((w, n@)),
            None => record_key_spec(name@, origin@) is None,
        },
{
    let text = chars_of(name.as_str());
    let star_dot = chars_of("*.");
    if chars_eq(&text, &chars_of("@")) {
        Some((false, origin.copy()))
    } else if chars_has_prefix(&text, &star_dot) {
        let rel = chars_trim_start_pattern(&text, &star_dot);
        let full = absolute_chars(&rel, origin);
        match parse_chars(&full) {
            None => None,
            Some(n) => Some((true, n)),
        }
    } else {
        let full = absolute_chars(&text, origin);
        match parse_chars(&full) {
            None => None,
            Some(n) => Some((false, n)),
        }
    }
}

/// Builds a zone's exact and wildcard records from its configured records.
fn zone_records(records: &Vec<RecordCfg>, origin: &DnsName, zttl: u32) -> (r: Option<
    Result<(Vec<Entry>, Vec<Entry>), ConfigError>,
>)
    ensures
        match r {
            None => zone_records_spec(records@.map_values(|c: RecordCfg| c@), origin@, zttl) is None,
            Some(Err(e)) => zone_records_spec(records@.map_values(|c: RecordCfg| c@), origin@, zttl)
                == Some(Err::<(Seq<EntryV>, Seq<EntryV>), ConfigErrorV>(e@)),
            Some(Ok((ex, wi))) => zone_records_spec(
                records@.map_values(|c: RecordCfg| c@),
                origin@,
                zttl,
            ) == Some(
                Ok::<(Seq<EntryV>, Seq<EntryV>), ConfigErrorV>(
                    (entries_view(ex@), entries_view(wi@)),
                ),
            ),
        },
{
    let ghost rs = records@.map_values(|c: RecordCfg| c@);
    let mut exact: Vec<Entry> = Vec::new();
    let mut wild: Vec<Entry> = Vec::new();
    let mut i: usize = 0;
    assert(rs.take(0) =~= Seq::<RecordCfgV>::empty());
    assert(entries_view(exact@) =~= Seq::<EntryV>::empty());
    while i < records.len()
        invariant
            i <= records.len(),
            rs == records@.map_values(|c: RecordCfg| c@),
            zone_records_spec(rs.take(i as int), origin@, zttl) == Some(
                Ok::<(Seq<EntryV>, Seq<EntryV>), ConfigErrorV>(
                    (entries_view(exact@), entries_view(wild@)),
                ),
            ),
        decreases records.len() - i,
    {
        assert(rs.take(i + 1).drop_last() =~= rs.take(i as int));
        assert(rs.take(i + 1).last() == records@[i as int]@);
        let ghost old_ex = entries_view(exact@);
        let ghost old_wi = entries_view(wild@);
        assert(zone_records_spec(rs.take(i + 1), origin@, zttl) == add_record_spec(
            old_ex,
            old_wi,
            records@[i as int]@,
            origin@,
            zttl,
        ));
        let rc = &records[i];
        let ttl = match rc.ttl {
            Some(t) => t,
            None => zttl,
        };
        let failed: Option<Result<(Vec<Entry>, Vec<Entry>), ConfigError>>;
        match parse_rtype(rc.record_type.as_str()) {
            Err(e) => {
                failed = Some(Err(e));
            },
            Ok(t) => match build_rdata(t, rc, origin) {
                None => {
                    failed = None;
                },
                Some(Err(e)) => {
                    failed = Some(Err(e));
                },
                Some(Ok(d)) => match record_key(&rc.name, origin) {
                    None => {
                        failed = None;
                    },
                    Some((is_wild, n)) => {
                        let e = Entry { name: n, rdata: d, ttl };
                        let ghost ev = e@;
                        if is_wild {
                            wild.push(e);
                            assert(entries_view(wild@) =~= old_wi.push(ev));
                        } else {
                            exact.push(e);
                            assert(entries_view(exact@) =~= old_ex.push(ev));
                        }
                        i = i + 1;
                        continue;
                    },
                },
            },
        }
        proof {
            lemma_zone_records_stops(rs, origin@, zttl, i + 1, rs.len() as int);
            assert(rs.take(rs.len() as int) =~= rs);
        }
        return failed;
    }
    assert(rs.take(records.len() as int) =~= rs);
    Some(Ok((exact, wild)))
}

/// Builds one zone.
fn build_zone(z: &Zone, default_ttl: u32) -> (r: Option<Result<ZoneData, ConfigError>>)
    ensures
        match r {
            None => zone_spec(z@, default_ttl) is None,
            Some(Err(e)) => zone_spec(z@, default_ttl) == Some(Err::<ZoneV, ConfigErrorV>(e@)),
            Some(Ok(zd)) => zone_spec(z@, default_ttl) == Some(Ok::<ZoneV, ConfigErrorV>(zd@)),
        },
{
    let oc = chars_of(z.origin.as_str());
    let origin = match parse_chars(&oc) {
        None => {
            return None;
        },
        Some(o) => o,
    };
    let zttl = match z.ttl {
        Some(t) => t,
        None => default_ttl,
    };
    let ns = match ns_names(&z.ns, &origin) {
        None => {
            return None;
        },
        Some(v) => v,
    };
    match zone_records(&z.records, &origin, zttl) {
        None => None,
        Some(Err(e)) => Some(Err(e)),
        Some(Ok((exact, wild))) => Some(
            Ok(ZoneData { origin, default_ttl: zttl, soa: z.soa.copy(), ns, exact, wild }),
        ),
    }
}

impl ZoneStore {
    /// Builds the store from a configuration. `None` where a configured name
    /// (origin, name server, record owner or target) is one that hickory
    /// rejects; otherwise the store, or the error of the first refused record.
    pub fn from_config_checked(cfg: &Config) -> (r: Option<Result<ZoneStore, ConfigError>>)
        ensures
            match r {
                None => from_config_spec(cfg@) is None,
                Some(Err(e)) => from_config_spec(cfg@) == Some(
                    Err::<Seq<ZoneV>, ConfigErrorV>(e@),
                ),
                Some(Ok(s)) => from_config_spec(cfg@) == Some(Ok::<Seq<ZoneV>, ConfigErrorV>(s@)),
            },
    {
        let default_ttl = match cfg.default_ttl {
            Some(t) => t,
            None => 300,
        };
        let ghost zs = cfg@.zones;
        let mut zones: Vec<ZoneData> = Vec::new();
        let mut i: usize = 0;
        assert(zs.take(0) =~= Seq::<ZoneCfgV>::empty());
        assert(zones@.map_values(|z: ZoneData| z@) =~= Seq::<ZoneV>::empty());
        while i < cfg.zones.len()
            invariant
                i <= cfg.zones.len(),
                zs == cfg@.zones,
                zs == cfg.zones@.map_values(|z: Zone| z@),
                default_ttl == config_default_ttl(cfg@),
                zones_spec(zs.take(i as int), default_ttl) == Some(
                    Ok::<Seq<ZoneV>, ConfigErrorV>(zones@.map_values(|z: ZoneData| z@)),
                ),
            decreases cfg.zones.len() - i,
        {
            assert(zs.take(i + 1).drop_last() =~= zs.take(i as int));
            assert(zs.take(i + 1).last() == cfg.zones@[i as int]@);
            match build_zone(&cfg.zones[i], default_ttl) {
                Some(Ok(zd)) => {
                    let ghost old_view = zones@.map_values(|z: ZoneData| z@);
                    let ghost zv = zd@;
                    zones.push(zd);
                    i = i + 1;
                    assert(zones@.map_values(|z: ZoneData| z@) =~= old_view.push(zv));
                },
                other => {
                    proof {
                        lemma_zones_stops(zs, default_ttl, i + 1, zs.len() as int);
                        assert(zs.take(zs.len() as int) =~= zs);
                    }
                    return match other {
                        None => None,
                        Some(Err(e)) => Some(Err(e)),
                        Some(Ok(_)) => None,
                    };
                },
            }
        }
        assert(zs.take(cfg.zones.len() as int) =~= zs);
        let store = ZoneStore { zones };
        assert(store@ =~= zones@.map_values(|z: ZoneData| z@));
        Some(Ok(store))
    }

    /// Builds the store from a configuration whose names hickory all accepts:
    /// the store, or the error of the first refused record.
    pub fn from_config(cfg: &Config) -> (r: Result<ZoneStore, ConfigError>)
        requires
            from_config_spec(cfg@) is Some,
        ensures
            match r {
                Err(e) => from_config_spec(cfg@) == Some(Err::<Seq<ZoneV>, ConfigErrorV>(e@)),
                Ok(s) => from_config_spec(cfg@) == Some(Ok::<Seq<ZoneV>, ConfigErrorV>(s@)),
            },
    {
        match ZoneStore::from_config_checked(cfg) {
            Some(r) => r,
            None => Ok(ZoneStore { zones: Vec::new() }),
        }
    }
}

} // verus!
