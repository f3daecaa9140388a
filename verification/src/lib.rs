//! An authoritative DNS zone store for lab networks, with verified name
//! handling, zone construction, answer selection and forwarding decisions.

pub mod answer;
pub mod config;
pub mod laws;
pub mod record_laws;
pub mod name;
pub mod server;
pub mod store;
pub mod text;

pub use name::{
    ensure_fqdn, parse_name, parse_name_checked, value_to_name, value_to_name_checked, DnsName,
};
pub use config::{
    parse_rtype, Config, ConfigError, Listen, RData, RecordCfg, RecordType, Soa, SoaData, Zone,
};
pub use store::ZoneStore;
pub use answer::{
    MessageType, OpCode, Question, Request, Resolution, ResourceRecord, Response, ResponseCode,
};
pub use server::{servfail, Action, Exchange};
