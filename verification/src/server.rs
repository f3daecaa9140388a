//! The decisions the server takes for one incoming packet: answer locally,
//! forward to the upstream resolvers one after another, relay the first
//! upstream reply, or answer SERVFAIL. The caller performs the network work
//! and reports its outcome back.

use vstd::prelude::*;

use crate::answer::{
    answer_spec, copy_question, records_view, Question, Request, RequestV, Resolution,
    ResolutionV, Response, ResponseCode, ResponseV, RecordV, MessageType, OpCode,
};
use crate::name::DnsName;
use crate::config::strings_view;
use crate::store::{ZoneStore, ZoneV};
use crate::text::{chars_concat, chars_of, string_of};

verus! {

/// What the caller is to do next.
#[derive(Debug)]
pub enum Action {
    /// Encode this response and send it to the client.
    Reply(Response),
    /// Send these bytes, an upstream's reply, to the client unchanged.
    Relay(Vec<u8>),
    /// Send the client's packet to the upstream at this `host:port` address
    /// and report the reply (or its absence) with [`Exchange::upstream_replied`].
    Forward(String),
    /// Nothing to send.
    Finish,
}

pub enum ActionV {
    Reply(ResponseV),
    Relay(Seq<u8>),
    Forward(Seq<char>),
    Finish,
}

impl View for Action {
    type V = ActionV;

    open spec fn view(&self) -> ActionV {
        match self {
            Action::Reply(r) => ActionV::Reply(r@),
            Action::Relay(b) => ActionV::Relay(b@),
            Action::Forward(a) => ActionV::Forward(a@),
            Action::Finish => ActionV::Finish,
        }
    }
}

/// A query that is being forwarded: the request, the upstream resolvers, and
/// the position of the one currently asked.
pub struct Exchange {
    request: Request,
    upstreams: Vec<String>,
    current: usize,
}

pub struct ExchangeV {
    pub request: RequestV,
    pub upstreams: Seq<Seq<char>>,
    pub current: int,
}

impl View for Exchange {
    type V = ExchangeV;

    closed spec fn view(&self) -> ExchangeV {
        ExchangeV {
            request: self.request@,
            upstreams: strings_view(self.upstreams@),
            current: self.current as int,
        }
    }
}

impl Exchange {
    /// The position of the upstream being asked is within the list.
    #[verifier::type_invariant]
    closed spec fn well_formed(&self) -> bool {
        self.current < self.upstreams.len()
    }
}

/// The optional value of an exchange.
pub open spec fn opt_exchange_view(x: Option<Exchange>) -> Option<ExchangeV> {
    match x {
        Some(x) => Some(x@),
        None => None,
    }
}

/// The address at which an upstream resolver is asked: its name and port 53.
pub open spec fn upstream_address_spec(upstream: Seq<char>) -> Seq<char> {
    upstream + ":53"@
}

/// The SERVFAIL response to a request: a response to a query with the same
/// id and question, and nothing else set.
pub open spec fn servfail_spec(req: RequestV) -> ResponseV {
    ResponseV {
        id: req.id,
        message_type: MessageType::Response,
        op_code: OpCode::Query,
        recursion_desired: false,
        recursion_available: false,
        authoritative: false,
        rcode: ResponseCode::ServFail,
        question: req.question,
        answers: Seq::<RecordV>::empty(),
        authority: Seq::<RecordV>::empty(),
    }
}

/// The first decision for a packet: `None` for a packet that is not a DNS
/// message. Local answers are sent; names outside the zones go to the first
/// upstream, or get SERVFAIL where there is none; a query the store gives up
/// on gets no reply.
pub open spec fn start_spec(zones: Seq<ZoneV>, req: Option<RequestV>, upstreams: Seq<Seq<char>>) -> (
    ActionV,
    Option<ExchangeV>,
) {
    match req {
        None => (ActionV::Finish, None),
        Some(r) => match answer_spec(zones, r) {
            ResolutionV::Aborted => (ActionV::Finish, None),
            ResolutionV::Answered(resp) => (ActionV::Reply(resp), None),
            ResolutionV::Outside => if upstreams.len() == 0 {
                (ActionV::Reply(servfail_spec(r)), None)
            } else {
                (
                    ActionV::Forward(upstream_address_spec(upstreams[0])),
                    Some(ExchangeV { request: r, upstreams, current: 0 }),
                )
            },
        },
    }
}

/// The decision after the current upstream has answered (`Some(bytes)`) or
/// failed (`None`): relay the answer; else ask the next upstream; after the
/// last one, SERVFAIL.
pub open spec fn upstream_replied_spec(x: ExchangeV, reply: Option<Seq<u8>>) -> (
    ActionV,
    Option<ExchangeV>,
) {
    match reply {
        Some(bytes) => (ActionV::Relay(bytes), None),
        None => if x.current + 1 < x.upstreams.len() {
            (
                ActionV::Forward(upstream_address_spec(x.upstreams[x.current + 1])),
                Some(ExchangeV { current: x.current + 1, ..x }),
            )
        } else {
            (ActionV::Reply(servfail_spec(x.request)), None)
        },
    }
}

/// The address `upstream:53`.
fn upstream_address(upstream: &String) -> (r: String)
    ensures
        r@ == upstream_address_spec(upstream@),
{
    let a = chars_of(upstream.as_str());
    let b = chars_of(":53");
    string_of(&chars_concat(&a, &b))
}

/// The SERVFAIL response to a request.
pub fn servfail(req: &Request) -> (r: Response)
    ensures
        r@ == servfail_spec(req@),
{
    let r = Response {
        id: req.id,
        message_type: MessageType::Response,
        op_code: OpCode::Query,
        recursion_desired: false,
        recursion_available: false,
        authoritative: false,
        rcode: ResponseCode::ServFail,
        question: copy_question(&req.question),
        answers: Vec::new(),
        authority: Vec::new(),
    };
    assert(records_view(r.answers@) =~= Seq::<RecordV>::empty());
    assert(records_view(r.authority@) =~= Seq::<RecordV>::empty());
    r
}

impl Exchange {
    /// Decides what to do with a packet: `request` is the decoded message, or
    /// `None` where the packet is not a DNS message; `upstreams` are the
    /// configured resolvers.
    pub fn start(store: &ZoneStore, request: Option<Request>, upstreams: Vec<String>) -> (r: (
        Action,
        Option<Exchange>,
    ))
        ensures
            (r.0@, opt_exchange_view(r.1)) == start_spec(
                store@,
                opt_request_view(request),
                strings_view(upstreams@),
            ),
    {
        let req = match request {
            None => {
                return (Action::Finish, None);
            },
            Some(req) => req,
        };
        match store.answer_checked(&req) {
            Resolution::Aborted => (Action::Finish, None),
            Resolution::Answered(resp) => (Action::Reply(resp), None),
            Resolution::Outside => {
                if upstreams.len() == 0 {
                    (Action::Reply(servfail(&req)), None)
                } else {
                    let addr = upstream_address(&upstreams[0]);
                    let x = Exchange { request: req, upstreams, current: 0 };
                    (Action::Forward(addr), Some(x))
                }
            },
        }
    }

    /// Decides what to do once the current upstream has replied with `reply`,
    /// or failed (`None`).
    pub fn upstream_replied(self, reply: Option<Vec<u8>>) -> (r: (Action, Option<Exchange>))
        ensures
            (r.0@, opt_exchange_view(r.1)) == upstream_replied_spec(
                self@,
                match reply {
                    Some(b) => Some(b@),
                    None => None,
                },
            ),
    {
        proof {
            use_type_invariant(&self);
        }
        match reply {
            Some(bytes) => (Action::Relay(bytes), None),
            None => {
                if self.current + 1 < self.upstreams.len() {
                    let next = self.current + 1;
                    let addr = upstream_address(&self.upstreams[next]);
                    let x = Exchange { request: self.request, upstreams: self.upstreams, current: next };
                    (Action::Forward(addr), Some(x))
                } else {
                    (Action::Reply(servfail(&self.request)), None)
                }
            },
        }
    }
}

/// The optional value of a request.
pub open spec fn opt_request_view(r: Option<Request>) -> Option<RequestV> {
    match r {
        Some(r) => Some(r@),
        None => None,
    }
}

/// What `hickory_proto::op::Message::from_vec` decodes from a packet, read as
/// the message id, its recursion-desired flag and its first query (name as
/// hickory prints and stores it, type and class codes); `None` where hickory
/// reports the packet malformed.
pub uninterp spec fn hickory_decode_request(packet: Seq<u8>) -> Option<RequestV>;

/// Calls `hickory_proto::op::Message::from_vec` and reads the decoded message
/// into a [`Request`]. The contract names the outcome; the wire format itself
/// is hickory's and is not restated.
#[verifier::external_body]
fn decode_request(packet: &[u8]) -> (r: Option<Request>)
    ensures
        opt_request_view(r) == hickory_decode_request(packet@),
{
    let m = hickory_proto::op::Message::from_vec(packet).ok()?;
    let question = match m.queries().first() {
        Some(q) => {
            let n = q.name();
            let name = DnsName { ascii: n.to_ascii().chars().collect(), utf8: n.to_utf8().chars().collect(), labels: n.num_labels(), wire: n.iter().map(|l| l.to_vec()).collect(), fqdn: n.is_fqdn() };
            Some(Question { name, qtype: u16::from(q.query_type()), qclass: u16::from(q.query_class()) })
        },
        None => None,
    };
    Some(Request { id: m.id(), recursion_desired: m.recursion_desired(), question })
}

impl Exchange {
    /// Decides what to do with a received packet: it is decoded as a DNS
    /// message (a packet that is not one gets no reply) and handled as
    /// [`Exchange::start`] says.
    pub fn start_packet(store: &ZoneStore, packet: &[u8], upstreams: Vec<String>) -> (r: (
        Action,
        Option<Exchange>,
    ))
        ensures
            (r.0@, opt_exchange_view(r.1)) == start_spec(
                store@,
                hickory_decode_request(packet@),
                strings_view(upstreams@),
            ),
    {
        let request = decode_request(packet);
        Exchange::start(store, request, upstreams)
    }
}

} // verus!
