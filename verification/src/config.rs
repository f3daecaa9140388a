//! The server configuration (zones, their SOA and NS data, and records), record
//! types, record data, and the building of one configured record's data.

use vstd::prelude::*;

use crate::name::{value_chars_to_name, value_to_name_spec, DnsName, NameV};
use crate::text::{
    all_ascii, ascii_upper_seq, chars_eq, chars_of, chars_split_dots, split_dots,
    std_to_uppercase, str_to_uppercase,
};

verus! {

// ---------------------------------------------------------------------------
// Configuration
// ---------------------------------------------------------------------------

/// Where the server listens.
#[derive(Clone, Debug)]
pub struct Listen {
    pub host: String,
    pub port: u16,
}

/// The whole configuration file.
#[derive(Clone, Debug)]
pub struct Config {
    pub listen: Option<Listen>,
    /// Upstream resolvers (IPs or host names), tried in order.
    pub upstream: Option<Vec<String>>,
    pub default_ttl: Option<u32>,
    pub zones: Vec<Zone>,
}

/// One authoritative zone.
#[derive(Clone, Debug)]
pub struct Zone {
    pub origin: String,
    pub ttl: Option<u32>,
    pub soa: Soa,
    pub ns: Vec<String>,
    pub records: Vec<RecordCfg>,
}

/// The zone's start-of-authority data.
#[derive(Clone, Debug)]
pub struct Soa {
    pub mname: String,
    pub rname: String,
    pub serial: u32,
    pub refresh: u32,
    pub retry: u32,
    pub expire: u32,
    pub minimum: u32,
}

/// One configured record. `name` is `@`, a relative label, an absolute name,
/// or a wildcard `*.suffix`; `record_type` is the type's mnemonic.
#[derive(Clone, Debug)]
pub struct RecordCfg {
    pub name: String,
    pub record_type: String,
    pub value: Option<String>,
    pub ttl: Option<u32>,
    /// MX preference.
    pub preference: Option<u16>,
}

pub struct ListenV {
    pub host: Seq<char>,
    pub port: u16,
}

pub struct ConfigV {
    pub listen: Option<ListenV>,
    pub upstream: Option<Seq<Seq<char>>>,
    pub default_ttl: Option<u32>,
    pub zones: Seq<ZoneCfgV>,
}

pub struct ZoneCfgV {
    pub origin: Seq<char>,
    pub ttl: Option<u32>,
    pub soa: SoaV,
    pub ns: Seq<Seq<char>>,
    pub records: Seq<RecordCfgV>,
}

pub struct SoaV {
    pub mname: Seq<char>,
    pub rname: Seq<char>,
    pub serial: u32,
    pub refresh: u32,
    pub retry: u32,
    pub expire: u32,
    pub minimum: u32,
}

pub struct RecordCfgV {
    pub name: Seq<char>,
    pub record_type: Seq<char>,
    pub value: Option<Seq<char>>,
    pub ttl: Option<u32>,
    pub preference: Option<u16>,
}

/// The texts of a list of strings.
pub open spec fn strings_view(v: Seq<String>) -> Seq<Seq<char>> {
    v.map_values(|s: String| s@)
}

/// The text of an optional string.
pub open spec fn opt_string_view(v: Option<String>) -> Option<Seq<char>> {
    match v {
        Some(s) => Some(s@),
        None => None,
    }
}

impl View for Listen {
    type V = ListenV;

    open spec fn view(&self) -> ListenV {
        ListenV { host: self.host@, port: self.port }
    }
}

impl View for Soa {
    type V = SoaV;

    open spec fn view(&self) -> SoaV {
        SoaV {
            mname: self.mname@,
            rname: self.rname@,
            serial: self.serial,
            refresh: self.refresh,
            retry: self.retry,
            expire: self.expire,
            minimum: self.minimum,
        }
    }
}

impl View for RecordCfg {
    type V = RecordCfgV;

    open spec fn view(&self) -> RecordCfgV {
        RecordCfgV {
            name: self.name@,
            record_type: self.record_type@,
            value: opt_string_view(self.value),
            ttl: self.ttl,
            preference: self.preference,
        }
    }
}

impl View for Zone {
    type V = ZoneCfgV;

    open spec fn view(&self) -> ZoneCfgV {
        ZoneCfgV {
            origin: self.origin@,
            ttl: self.ttl,
            soa: self.soa@,
            ns: strings_view(self.ns@),
            records: self.records@.map_values(|r: RecordCfg| r@),
        }
    }
}

impl View for Config {
    type V = ConfigV;

    open spec fn view(&self) -> ConfigV {
        ConfigV {
            listen: match self.listen {
                Some(l) => Some(l@),
                None => None,
            },
            upstream: match self.upstream {
                Some(u) => Some(strings_view(u@)),
                None => None,
            },
            default_ttl: self.default_ttl,
            zones: self.zones@.map_values(|z: Zone| z@),
        }
    }
}

impl Soa {
    /// An independent copy.
    pub fn copy(&self) -> (r: Soa)
        ensures
            r@ == self@,
    {
        Soa {
            mname: self.mname.clone(),
            rname: self.rname.clone(),
            serial: self.serial,
            refresh: self.refresh,
            retry: self.retry,
            expire: self.expire,
            minimum: self.minimum,
        }
    }
}

// ---------------------------------------------------------------------------
// Record types
// ---------------------------------------------------------------------------

/// The record types that zones can hold.
#[derive(Clone, Copy, PartialEq, Eq, Structural, Debug)]
pub enum RecordType {
    A,
    Aaaa,
    Cname,
    Txt,
    Mx,
    Ns,
    Soa,
}

/// The wire code of a record type.
pub open spec fn type_code(t: RecordType) -> u16 {
    match t {
        RecordType::A => 1,
        RecordType::Ns => 2,
        RecordType::Cname => 5,
        RecordType::Soa => 6,
        RecordType::Mx => 15,
        RecordType::Txt => 16,
        RecordType::Aaaa => 28,
    }
}

/// The wire code of CNAME.
pub open spec fn cname_code() -> u16 {
    5
}

impl RecordType {
    /// The wire code of this type.
    pub fn code(&self) -> (r: u16)
        ensures
            r == type_code(*self),
    {
        match self {
            RecordType::A => 1,
            RecordType::Ns => 2,
            RecordType::Cname => 5,
            RecordType::Soa => 6,
            RecordType::Mx => 15,
            RecordType::Txt => 16,
            RecordType::Aaaa => 28,
        }
    }
}

// ---------------------------------------------------------------------------
// Errors
// ---------------------------------------------------------------------------

/// Why a configured record is refused.
#[derive(Debug)]
pub enum ConfigError {
    /// The type mnemonic (uppercased) is not one of A, AAAA, CNAME, TXT, MX, NS, SOA.
    UnsupportedRecordType(String),
    /// A record of this type has no `value`.
    MissingValue(RecordType),
    /// An MX record has no `preference`.
    MissingPreference,
    /// The `value` of an A or AAAA record is not an address of that family.
    InvalidAddress(RecordType),
    /// SOA data belongs in the zone's `soa`, not in its records.
    SoaInRecords,
}

pub enum ConfigErrorV {
    UnsupportedRecordType(Seq<char>),
    MissingValue(RecordType),
    MissingPreference,
    InvalidAddress(RecordType),
    SoaInRecords,
}

impl View for ConfigError {
    type V = ConfigErrorV;

    open spec fn view(&self) -> ConfigErrorV {
        match self {
            ConfigError::UnsupportedRecordType(s) => ConfigErrorV::UnsupportedRecordType(s@),
            ConfigError::MissingValue(t) => ConfigErrorV::MissingValue(*t),
            ConfigError::MissingPreference => ConfigErrorV::MissingPreference,
            ConfigError::InvalidAddress(t) => ConfigErrorV::InvalidAddress(*t),
            ConfigError::SoaInRecords => ConfigErrorV::SoaInRecords,
        }
    }
}

/// The message that describes an error.
pub open spec fn error_message(e: ConfigErrorV) -> Seq<char> {
    match e {
        ConfigErrorV::UnsupportedRecordType(s) => "unsupported record type in config: "@ + s,
        ConfigErrorV::MissingValue(t) => match t {
            RecordType::A => "A record requires value"@,
            RecordType::Aaaa => "AAAA record requires value"@,
            RecordType::Cname => "CNAME requires value"@,
            RecordType::Ns => "NS requires value"@,
            RecordType::Txt => "TXT requires value"@,
            RecordType::Mx => "MX requires value"@,
            RecordType::Soa => "SOA requires value"@,
        },
        ConfigErrorV::MissingPreference => "MX requires preference"@,
        ConfigErrorV::InvalidAddress(t) => match t {
            RecordType::Aaaa => "invalid IPv6 address syntax"@,
            _ => "invalid IPv4 address syntax"@,
        },
        ConfigErrorV::SoaInRecords => "SOA should be specified in zone.soa, not in records"@,
    }
}

impl ConfigError {
    /// The error message.
    pub fn message(&self) -> (r: String)
        ensures
            r@ == error_message(self@),
    {
        match self {
            ConfigError::UnsupportedRecordType(s) => {
                let mut m = String::from_str("unsupported record type in config: ");
                m.append(s.as_str());
                m
            },
            ConfigError::MissingValue(t) => match t {
                RecordType::A => String::from_str("A record requires value"),
                RecordType::Aaaa => String::from_str("AAAA record requires value"),
                RecordType::Cname => String::from_str("CNAME requires value"),
                RecordType::Ns => String::from_str("NS requires value"),
                RecordType::Txt => String::from_str("TXT requires value"),
                RecordType::Mx => String::from_str("MX requires value"),
                RecordType::Soa => String::from_str("SOA requires value"),
            },
            ConfigError::MissingPreference => String::from_str("MX requires preference"),
            ConfigError::InvalidAddress(t) => match t {
                RecordType::Aaaa => String::from_str("invalid IPv6 address syntax"),
                _ => String::from_str("invalid IPv4 address syntax"),
            },
            ConfigError::SoaInRecords => String::from_str(
                "SOA should be specified in zone.soa, not in records",
            ),
        }
    }
}

/// The record type an uppercase mnemonic denotes.
pub open spec fn rtype_of_mnemonic(up: Seq<char>) -> Result<RecordType, ConfigErrorV> {
    if up == "A"@ {
        Ok(RecordType::A)
    } else if up == "AAAA"@ {
        Ok(RecordType::Aaaa)
    } else if up == "CNAME"@ {
        Ok(RecordType::Cname)
    } else if up == "TXT"@ {
        Ok(RecordType::Txt)
    } else if up == "MX"@ {
        Ok(RecordType::Mx)
    } else if up == "NS"@ {
        Ok(RecordType::Ns)
    } else if up == "SOA"@ {
        Ok(RecordType::Soa)
    } else {
        Err(ConfigErrorV::UnsupportedRecordType(up))
    }
}

/// The record type a mnemonic denotes, in any letter case: the mnemonic is
/// uppercased first (for ASCII text `a`..`z` become `A`..`Z`; other text goes
/// through the standard library's Unicode uppercase mapping).
pub open spec fn parse_rtype_spec(s: Seq<char>) -> Result<RecordType, ConfigErrorV> {
    if all_ascii(s) {
        rtype_of_mnemonic(ascii_upper_seq(s))
    } else {
        rtype_of_mnemonic(std_to_uppercase(s))
    }
}

/// Reads a record type mnemonic, in any letter case.
pub fn parse_rtype(s: &str) -> (r: Result<RecordType, ConfigError>)
    ensures
        match r {
            Ok(t) => parse_rtype_spec(s@) == Ok::<RecordType, ConfigErrorV>(t),
            Err(e) => parse_rtype_spec(s@) == Err::<RecordType, ConfigErrorV>(e@),
        },
{
    let up = str_to_uppercase(s);
    let u = chars_of(up.as_str());
    if chars_eq(&u, &chars_of("A")) {
        Ok(RecordType::A)
    } else if chars_eq(&u, &chars_of("AAAA")) {
        Ok(RecordType::Aaaa)
    } else if chars_eq(&u, &chars_of("CNAME")) {
        Ok(RecordType::Cname)
    } else if chars_eq(&u, &chars_of("TXT")) {
        Ok(RecordType::Txt)
    } else if chars_eq(&u, &chars_of("MX")) {
        Ok(RecordType::Mx)
    } else if chars_eq(&u, &chars_of("NS")) {
        Ok(RecordType::Ns)
    } else if chars_eq(&u, &chars_of("SOA")) {
        Ok(RecordType::Soa)
    } else {
        Err(ConfigError::UnsupportedRecordType(up))
    }
}

// ---------------------------------------------------------------------------
// Record data
// ---------------------------------------------------------------------------

/// The data of a start-of-authority record.
#[derive(Clone, Debug)]
pub struct SoaData {
    pub mname: DnsName,
    pub rname: DnsName,
    pub serial: u32,
    pub refresh: i32,
    pub retry: i32,
    pub expire: i32,
    pub minimum: u32,
}

/// Record data.
#[derive(Clone, Debug)]
pub enum RData {
    A([u8; 4]),
    Aaaa([u8; 16]),
    Cname(DnsName),
    Ns(DnsName),
    Txt(String),
    Mx(u16, DnsName),
    Soa(SoaData),
}

pub struct SoaDataV {
    pub mname: NameV,
    pub rname: NameV,
    pub serial: u32,
    pub refresh: i32,
    pub retry: i32,
    pub expire: i32,
    pub minimum: u32,
}

pub enum RDataV {
    A(Seq<u8>),
    Aaaa(Seq<u8>),
    Cname(NameV),
    Ns(NameV),
    Txt(Seq<char>),
    Mx(u16, NameV),
    Soa(SoaDataV),
}

impl View for SoaData {
    type V = SoaDataV;

    open spec fn view(&self) -> SoaDataV {
        SoaDataV {
            mname: self.mname@,
            rname: self.rname@,
            serial: self.serial,
            refresh: self.refresh,
            retry: self.retry,
            expire: self.expire,
            minimum: self.minimum,
        }
    }
}

impl View for RData {
    type V = RDataV;

    open spec fn view(&self) -> RDataV {
        match self {
            RData::A(o) => RDataV::A(o@),
            RData::Aaaa(o) => RDataV::Aaaa(o@),
            RData::Cname(n) => RDataV::Cname(n@),
            RData::Ns(n) => RDataV::Ns(n@),
            RData::Txt(t) => RDataV::Txt(t@),
            RData::Mx(p, n) => RDataV::Mx(*p, n@),
            RData::Soa(s) => RDataV::Soa(s@),
        }
    }
}

/// The type of record data.
pub open spec fn rdata_type(r: RDataV) -> RecordType {
    match r {
        RDataV::A(_) => RecordType::A,
        RDataV::Aaaa(_) => RecordType::Aaaa,
        RDataV::Cname(_) => RecordType::Cname,
        RDataV::Ns(_) => RecordType::Ns,
        RDataV::Txt(_) => RecordType::Txt,
        RDataV::Mx(_, _) => RecordType::Mx,
        RDataV::Soa(_) => RecordType::Soa,
    }
}

impl SoaData {
    pub fn copy(&self) -> (r: SoaData)
        ensures
            r@ == self@,
    {
        SoaData {
            mname: self.mname.copy(),
            rname: self.rname.copy(),
            serial: self.serial,
            refresh: self.refresh,
            retry: self.retry,
            expire: self.expire,
            minimum: self.minimum,
        }
    }
}

impl RData {
    /// An independent copy.
    pub fn copy(&self) -> (r: RData)
        ensures
            r@ == self@,
    {
        match self {
            RData::A(o) => RData::A(*o),
            RData::Aaaa(o) => RData::Aaaa(*o),
            RData::Cname(n) => RData::Cname(n.copy()),
            RData::Ns(n) => RData::Ns(n.copy()),
            RData::Txt(t) => RData::Txt(t.clone()),
            RData::Mx(p, n) => RData::Mx(*p, n.copy()),
            RData::Soa(s) => RData::Soa(s.copy()),
        }
    }

    /// The type of this record data.
    pub fn record_type(&self) -> (r: RecordType)
        ensures
            r == rdata_type(self@),
    {
        match self {
            RData::A(_) => RecordType::A,
            RData::Aaaa(_) => RecordType::Aaaa,
            RData::Cname(_) => RecordType::Cname,
            RData::Ns(_) => RecordType::Ns,
            RData::Txt(_) => RecordType::Txt,
            RData::Mx(_, _) => RecordType::Mx,
            RData::Soa(_) => RecordType::Soa,
        }
    }
}

// ---------------------------------------------------------------------------
// Address parsing
// ---------------------------------------------------------------------------

/// The value of a text of decimal digits.
pub open spec fn decimal_value(s: Seq<char>) -> int
    decreases s.len(),
{
    if s.len() == 0 {
        0
    } else {
        decimal_value(s.drop_last()) * 10 + (s.last() as int - 48)
    }
}

/// One octet in dot-decimal notation: one to three decimal digits, without a
/// leading zero (which would mark octal), of value at most 255.
pub open spec fn octet_text(s: Seq<char>) -> bool {
    &&& 1 <= s.len() <= 3
    &&& forall|i: int| 0 <= i < s.len() ==> '0' <= #[trigger] s[i] && s[i] <= '9'
    &&& (s.len() > 1 ==> s[0] != '0')
    &&& decimal_value(s) <= 255
}

/// The octets of an IPv4 address in dot-decimal notation: four decimal octets
/// separated by `.`; `None` for any other text.
pub open spec fn ipv4_octets(text: Seq<char>) -> Option<Seq<u8>> {
    let parts = split_dots(text);
    if parts.len() == 4 && forall|i: int| 0 <= i < 4 ==> octet_text(#[trigger] parts[i]) {
        Some(Seq::new(4, |i: int| decimal_value(parts[i]) as u8))
    } else {
        None
    }
}

/// The octets of the IPv6 address that `<Ipv6Addr as FromStr>` reads from a
/// text; `None` where it reports a syntax error.
pub uninterp spec fn std_parse_ipv6(text: Seq<char>) -> Option<Seq<u8>>;

/// The value of one octet in dot-decimal notation; `None` where the text is
/// not one.
fn octet_value(p: &Vec<char>) -> (r: Option<u8>)
    ensures
        match r {
            Some(v) => octet_text(p@) && v as int == decimal_value(p@),
            None => !octet_text(p@),
        },
{
    if p.len() == 0 || p.len() > 3 {
        return None;
    }
    if p.len() > 1 && p[0] == '0' {
        return None;
    }
    let mut v: u32 = 0;
    let mut i: usize = 0;
    while i < p.len()
        invariant
            i <= p.len() <= 3,
            v as int == decimal_value(p@.take(i as int)),
            (i == 0 && v == 0) || (i == 1 && v < 10) || (i == 2 && v < 100) || (i == 3 && v < 1000),
            forall|j: int| 0 <= j < i ==> '0' <= #[trigger] p@[j] && p@[j] <= '9',
        decreases p.len() - i,
    {
        let c = p[i];
        if !('0' <= c && c <= '9') {
            assert(!('0' <= p@[i as int] && p@[i as int] <= '9'));
            return None;
        }
        let d: u32 = (c as u32) - 48;
        assert(p@.take(i + 1).drop_last() =~= p@.take(i as int));
        assert(p@.take(i + 1).last() == c);
        v = v * 10 + d;
        i = i + 1;
    }
    assert(p@.take(p.len() as int) =~= p@);
    if v > 255 {
        None
    } else {
        Some(v as u8)
    }
}

/// Reads an IPv4 address in dot-decimal notation (as `<Ipv4Addr as FromStr>`
/// does): four decimal octets divided by `.`, with octal (a leading `0`) and
/// other forms refused.
fn parse_ipv4(text: &str) -> (r: Option<[u8; 4]>)
    ensures
        match r {
            Some(o) => ipv4_octets(text@) == Some(o@),
            None => ipv4_octets(text@) is None,
        },
{
    let chars = chars_of(text);
    let parts = chars_split_dots(&chars);
    let ghost sp = split_dots(text@);
    if parts.len() != 4 {
        return None;
    }
    assert(parts@[0]@ == sp[0] && parts@[1]@ == sp[1] && parts@[2]@ == sp[2] && parts@[3]@
        == sp[3]);
    let a = match octet_value(&parts[0]) {
        Some(v) => v,
        None => {
            return None;
        },
    };
    let b = match octet_value(&parts[1]) {
        Some(v) => v,
        None => {
            return None;
        },
    };
    let c = match octet_value(&parts[2]) {
        Some(v) => v,
        None => {
            return None;
        },
    };
    let d = match octet_value(&parts[3]) {
        Some(v) => v,
        None => {
            return None;
        },
    };
    assert forall|i: int| 0 <= i < 4 implies octet_text(#[trigger] sp[i]) by {
        if i == 0 {
        } else if i == 1 {
        } else if i == 2 {
        } else {
        }
    }
    let o: [u8; 4] = [a, b, c, d];
    assert(o@ =~= Seq::new(4, |i: int| decimal_value(sp[i]) as u8));
    Some(o)
}

/// Calls `str::parse::<core::net::Ipv6Addr>` and returns the address's octets.
/// The contract names the outcome; the accepted syntax is the standard
/// library's and is not restated.
#[verifier::external_body]
fn parse_ipv6(text: &str) -> (r: Option<[u8; 16]>)
    ensures
        match r {
            Some(o) => std_parse_ipv6(text@) == Some(o@),
            None => std_parse_ipv6(text@) is None,
        },
{
    text.parse::<core::net::Ipv6Addr>().ok().map(|ip| ip.octets())
}

/// The record data that a configured record of type `t` yields inside a zone
/// with the given origin. `None` where a name in it is one that hickory
/// rejects; otherwise the data or the reason it is refused.
pub open spec fn build_rdata_spec(t: RecordType, rc: RecordCfgV, origin: NameV) -> Option<
    Result<RDataV, ConfigErrorV>,
> {
    match t {
        RecordType::A => match rc.value {
            None => Some(Err(ConfigErrorV::MissingValue(RecordType::A))),
            Some(v) => match ipv4_octets(v) {
                None => Some(Err(ConfigErrorV::InvalidAddress(RecordType::A))),
                Some(o) => Some(Ok(RDataV::A(o))),
            },
        },
        RecordType::Aaaa => match rc.value {
            None => Some(Err(ConfigErrorV::MissingValue(RecordType::Aaaa))),
            Some(v) => match std_parse_ipv6(v) {
                None => Some(Err(ConfigErrorV::InvalidAddress(RecordType::Aaaa))),
                Some(o) => Some(Ok(RDataV::Aaaa(o))),
            },
        },
        RecordType::Cname => match rc.value {
            None => Some(Err(ConfigErrorV::MissingValue(RecordType::Cname))),
            Some(v) => match value_to_name_spec(v, origin) {
                None => None,
                Some(n) => Some(Ok(RDataV::Cname(n))),
            },
        },
        RecordType::Ns => match rc.value {
            None => Some(Err(ConfigErrorV::MissingValue(RecordType::Ns))),
            Some(v) => match value_to_name_spec(v, origin) {
                None => None,
                Some(n) => Some(Ok(RDataV::Ns(n))),
            },
        },
        RecordType::Txt => match rc.value {
            None => Some(Err(ConfigErrorV::MissingValue(RecordType::Txt))),
            Some(v) => Some(Ok(RDataV::Txt(v))),
        },
        RecordType::Mx => match rc.preference {
            None => Some(Err(ConfigErrorV::MissingPreference)),
            Some(p) => match rc.value {
                None => Some(Err(ConfigErrorV::MissingValue(RecordType::Mx))),
                Some(v) => match value_to_name_spec(v, origin) {
                    None => None,
                    Some(n) => Some(Ok(RDataV::Mx(p, n))),
                },
            },
        },
        RecordType::Soa => Some(Err(ConfigErrorV::SoaInRecords)),
    }
}

/// Builds the record data of a configured record of type `t`; `None` where a
/// name in it is one that hickory rejects.
pub(crate) fn build_rdata(t: RecordType, rc: &RecordCfg, origin: &DnsName) -> (r: Option<
    Result<RData, ConfigError>,
>)
    ensures
        match r {
            None => build_rdata_spec(t, rc@, origin@) is None,
            Some(Ok(d)) => build_rdata_spec(t, rc@, origin@) == Some(
                Ok::<RDataV, ConfigErrorV>(d@),
            ),
            Some(Err(e)) => build_rdata_spec(t, rc@, origin@) == Some(
                Err::<RDataV, ConfigErrorV>(e@),
            ),
        },
{
    match t {
        RecordType::A => match &rc.value {
            None => Some(Err(ConfigError::MissingValue(RecordType::A))),
            Some(v) => match parse_ipv4(v.as_str()) {
                None => Some(Err(ConfigError::InvalidAddress(RecordType::A))),
                Some(o) => Some(Ok(RData::A(o))),
            },
        },
        RecordType::Aaaa => match &rc.value {
            None => Some(Err(ConfigError::MissingValue(RecordType::Aaaa))),
            Some(v) => match parse_ipv6(v.as_str()) {
                None => Some(Err(ConfigError::InvalidAddress(RecordType::Aaaa))),
                Some(o) => Some(Ok(RData::Aaaa(o))),
            },
        },
        RecordType::Cname => match &rc.value {
            None => Some(Err(ConfigError::MissingValue(RecordType::Cname))),
            Some(v) => {
                let vc = chars_of(v.as_str());
                match value_chars_to_name(&vc, origin) {
                    None => None,
                    Some(n) => Some(Ok(RData::Cname(n))),
                }
            },
        },
        RecordType::Ns => match &rc.value {
            None => Some(Err(ConfigError::MissingValue(RecordType::Ns))),
            Some(v) => {
                let vc = chars_of(v.as_str());
                match value_chars_to_name(&vc, origin) {
                    None => None,
                    Some(n) => Some(Ok(RData::Ns(n))),
                }
            },
        },
        RecordType::Txt => match &rc.value {
            None => Some(Err(ConfigError::MissingValue(RecordType::Txt))),
            Some(v) => Some(Ok(RData::Txt(v.clone()))),
        },
        RecordType::Mx => match rc.preference {
            None => Some(Err(ConfigError::MissingPreference)),
            Some(p) => match &rc.value {
                None => Some(Err(ConfigError::MissingValue(RecordType::Mx))),
                Some(v) => {
                    let vc = chars_of(v.as_str());
                    match value_chars_to_name(&vc, origin) {
                        None => None,
                        Some(n) => Some(Ok(RData::Mx(p, n))),
                    }
                },
            },
        },
        RecordType::Soa => Some(Err(ConfigError::SoaInRecords)),
    }
}

} // verus!
