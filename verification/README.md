# lab_name_server

A small authoritative DNS server for lab networks, with upstream forwarding
for names outside its zones. The library in `src/` holds the server's logic,
with its contracts and their proofs:

- `text.rs`: character helpers (case folding, suffixes, splitting on and
  joining with dots) and the standard-library calls `to_lowercase`,
  `to_uppercase` and `String::push`, with the contracts their documentation
  gives.
- `name.rs`: domain names as hickory parses and prints them, name equality
  and zone membership over labels (ASCII case ignored), normalisation of
  configured names (`ensure_fqdn`, `parse_name`, `value_to_name`).
- `config.rs`: the configuration, record types and record data, and the data
  of one configured record (`parse_rtype`, dot-decimal IPv4 and IPv6 address
  parsing).
- `store.rs`: building the zone store from a configuration.
- `answer.rs`: choosing the zone for a name and answering a query (exact
  records, one-hop CNAME chase, wildcards, SOA and NS authority records).
- `server.rs`: the per-packet decisions (answer, forward to each upstream in
  turn, relay, SERVFAIL), with packet decoding through hickory.
- `laws.rs`: properties proved over the specifications.

`app/` is the program around it: command line, logging, reading the YAML
configuration, the UDP socket loop, forwarding over UDP, and encoding
responses as hickory messages.
