//! Remote calls that a void may make to its launcher: which requests the
//! specification permits, and what is sent back.

use vstd::prelude::*;
use crate::specification::{AddressFamily, RpcSpecification};

verus! {

/// The kinds of request.
#[derive(Debug, Clone, Copy, PartialEq, Eq)]
#[non_exhaustive]
pub enum RpcKind {
    OpenTcpSocket,
    OpenUdpSocket,
}

impl RpcKind {
    /// The number of descriptors that accompany a request of this kind.
    pub fn num_fds(&self) -> (n: usize)
        ensures
            n == 0,
    {
        match self {
            RpcKind::OpenTcpSocket => 0,
            RpcKind::OpenUdpSocket => 0,
        }
    }
}

/// The address family that a request names.
#[derive(Debug, Clone, Copy, PartialEq, Eq)]
pub enum RequestFamily {
    Inet,
    Inet6,
    /// Any other family; no specification permits it by name.
    Other,
}

/// A request to open a socket. The host is `None` where the request does not
/// hold a well-formed string.
#[derive(Debug)]
pub struct OpenSocket {
    pub family: RequestFamily,
    pub port: u16,
    pub host: Option<String>,
}

/// Why a request was turned down.
#[derive(Debug, Clone, Copy, PartialEq, Eq)]
pub enum RpcError {
    BadlyFormedRequest,
    OperationNotPermitted,
    Io { errno: i32 },
}

/// What a request led to; sockets are given by their descriptors.
#[derive(Debug, Clone, Copy, PartialEq, Eq)]
pub enum RpcResult {
    OpenTcpSocket { socket: i32 },
    OpenUdpSocket { socket: i32 },
    Error { error: RpcError },
}

/// The message that answers a request; descriptors travel beside it.
#[derive(Debug, Clone, Copy, PartialEq, Eq)]
pub enum RpcResultSend {
    OpenTcpSocket,
    OpenUdpSocket,
    Error { error: RpcError },
}

impl RpcResultSend {
    /// The message for a result, and the descriptors to send beside it.
    pub open spec fn new_spec(from: RpcResult) -> (RpcResultSend, Seq<i32>) {
        match from {
            RpcResult::OpenTcpSocket { socket } => (RpcResultSend::OpenTcpSocket, seq![socket]),
            RpcResult::OpenUdpSocket { socket } => (RpcResultSend::OpenUdpSocket, seq![socket]),
            RpcResult::Error { error } => (RpcResultSend::Error { error }, Seq::empty()),
        }
    }

    /// Splits a result into the message and the descriptors to send beside
    /// it.
    pub fn new(from: RpcResult) -> (sent: (RpcResultSend, Vec<i32>))
        ensures
            (sent.0, sent.1@) == Self::new_spec(from),
    {
        let mut fds: Vec<i32> = Vec::new();
        match from {
            RpcResult::OpenTcpSocket { socket } => {
                fds.push(socket);
                assert(fds@ =~= seq![socket]);
                (RpcResultSend::OpenTcpSocket, fds)
            },
            RpcResult::OpenUdpSocket { socket } => {
                fds.push(socket);
                assert(fds@ =~= seq![socket]);
                (RpcResultSend::OpenUdpSocket, fds)
            },
            RpcResult::Error { error } => {
                assert(fds@ =~= Seq::empty());
                (RpcResultSend::Error { error }, fds)
            },
        }
    }
}

/// The restrictions of a rule on one field each; `None` permits any value.
pub struct Rule {
    pub family: Option<AddressFamily>,
    pub port: Option<u16>,
    pub host: Option<Seq<char>>,
}

/// The rule that a specification entry lays down for requests of a kind, if
/// it speaks of that kind.
pub open spec fn rule_for(entry: RpcSpecification, kind: RpcKind) -> Option<Rule> {
    match (entry, kind) {
        (RpcSpecification::OpenTcpSocket { family, port, host }, RpcKind::OpenTcpSocket) => Some(
            Rule {
                family,
                port,
                host: match host {
                    Some(h) => Some(h@),
                    None => None,
                },
            },
        ),
        (RpcSpecification::OpenUdpSocket { family, port, host }, RpcKind::OpenUdpSocket) => Some(
            Rule {
                family,
                port,
                host: match host {
                    Some(h) => Some(h@),
                    None => None,
                },
            },
        ),
        _ => None,
    }
}

/// Whether the family of a request is the one that a rule names.
pub open spec fn family_matches(wanted: AddressFamily, family: RequestFamily) -> bool {
    match (wanted, family) {
        (AddressFamily::Inet, RequestFamily::Inet) => true,
        (AddressFamily::Inet6, RequestFamily::Inet6) => true,
        _ => false,
    }
}

impl Rule {
    /// The rule cannot be applied: it names a host and the request holds
    /// none that can be read.
    pub open spec fn unreadable(self, request: OpenSocket) -> bool {
        self.host is Some && request.host is None
    }

    /// The request meets every restriction of the rule.
    pub open spec fn permits(self, request: OpenSocket) -> bool {
        &&& self.family matches Some(f) ==> family_matches(f, request.family)
        &&& self.port matches Some(p) ==> p == request.port
        &&& self.host matches Some(h) ==> request.host matches Some(r) && r@ == h
    }
}

/// Whether the rules permit a request, judged rule by rule from `i` on: the
/// first rule that permits it decides; a rule that cannot be applied before
/// that makes the request badly formed.
pub open spec fn permitted_from(
    rules: Seq<RpcSpecification>,
    kind: RpcKind,
    request: OpenSocket,
    i: int,
) -> Result<bool, RpcError>
    decreases rules.len() - i,
{
    if i < 0 || i >= rules.len() {
        Ok(false)
    } else {
        match rule_for(rules[i], kind) {
            None => permitted_from(rules, kind, request, i + 1),
            Some(rule) => if rule.unreadable(request) {
                Err(RpcError::BadlyFormedRequest)
            } else if rule.permits(request) {
                Ok(true)
            } else {
                permitted_from(rules, kind, request, i + 1)
            },
        }
    }
}

/// Whether the rules permit a request.
pub open spec fn permitted(rules: Seq<RpcSpecification>, kind: RpcKind, request: OpenSocket) -> Result<
    bool,
    RpcError,
> {
    permitted_from(rules, kind, request, 0)
}

/// What is done about a request: it is turned down with an error, or the
/// socket that it asks for is to be opened.
#[derive(Debug, Clone, Copy, PartialEq, Eq)]
pub enum RpcDecision {
    Open(RpcKind),
    Refuse(RpcError),
}

/// The decision on a request under the given rules.
pub open spec fn decided(rules: Seq<RpcSpecification>, kind: RpcKind, request: OpenSocket) -> RpcDecision {
    match permitted(rules, kind, request) {
        Ok(true) => if request.host is Some {
            RpcDecision::Open(kind)
        } else {
            RpcDecision::Refuse(RpcError::BadlyFormedRequest)
        },
        Ok(false) => RpcDecision::Refuse(RpcError::OperationNotPermitted),
        Err(e) => RpcDecision::Refuse(e),
    }
}

/// Judges one restriction on the family.
fn family_allowed(wanted: &Option<AddressFamily>, family: RequestFamily) -> (allowed: bool)
    ensures
        allowed == (*wanted matches Some(f) ==> family_matches(f, family)),
{
    match wanted {
        None => true,
        Some(AddressFamily::Inet) => match family {
            RequestFamily::Inet => true,
            _ => false,
        },
        Some(AddressFamily::Inet6) => match family {
            RequestFamily::Inet6 => true,
            _ => false,
        },
    }
}

/// Judges a request by one rule.
fn rule_allows(
    family: &Option<AddressFamily>,
    port: &Option<u16>,
    host: &Option<String>,
    request: &OpenSocket,
) -> (allowed: Result<bool, RpcError>)
    ensures
        ({
            let rule = Rule {
                family: *family,
                port: *port,
                host: match *host {
                    Some(h) => Some(h@),
                    None => None,
                },
            };
            if rule.unreadable(*request) {
                allowed == Err::<bool, RpcError>(RpcError::BadlyFormedRequest)
            } else {
                allowed == Ok::<bool, RpcError>(rule.permits(*request))
            }
        }),
{
    let mut allowed = family_allowed(family, request.family);
    allowed = allowed && match port {
        None => true,
        Some(p) => request.port == *p,
    };
    let host_allowed = match host {
        None => true,
        Some(h) => match &request.host {
            None => {
                return Err(RpcError::BadlyFormedRequest);
            },
            Some(r) => *r == *h,
        },
    };
    Ok(allowed && host_allowed)
}

/// Whether the rules permit a request to open a socket of the given kind.
fn validate_open_socket(permitted_rpcs: &[RpcSpecification], kind: RpcKind, req: &OpenSocket) -> (allowed:
    Result<bool, RpcError>)
    ensures
        allowed == permitted(permitted_rpcs@, kind, *req),
{
    let mut i: usize = 0;
    while i < permitted_rpcs.len()
        invariant
            i <= permitted_rpcs@.len(),
            permitted(permitted_rpcs@, kind, *req) == permitted_from(
                permitted_rpcs@,
                kind,
                *req,
                i as int,
            ),
        decreases permitted_rpcs@.len() - i,
    {
        let judged = match (&permitted_rpcs[i], kind) {
            (RpcSpecification::OpenTcpSocket { family, port, host }, RpcKind::OpenTcpSocket) => Some(
                rule_allows(family, port, host, req),
            ),
            (RpcSpecification::OpenUdpSocket { family, port, host }, RpcKind::OpenUdpSocket) => Some(
                rule_allows(family, port, host, req),
            ),
            _ => None,
        };
        match judged {
            Some(Err(e)) => {
                return Err(e);
            },
            Some(Ok(true)) => {
                return Ok(true);
            },
            _ => {},
        }
        i += 1;
    }
    Ok(false)
}

/// Whether the rules permit a request to open a TCP socket.
pub fn validate_open_tcp_socket(permitted_rpcs: &[RpcSpecification], req: &OpenSocket) -> (allowed:
    Result<bool, RpcError>)
    ensures
        allowed == permitted(permitted_rpcs@, RpcKind::OpenTcpSocket, *req),
{
    validate_open_socket(permitted_rpcs, RpcKind::OpenTcpSocket, req)
}

/// Whether the rules permit a request to open a UDP socket.
pub fn validate_open_udp_socket(permitted_rpcs: &[RpcSpecification], req: &OpenSocket) -> (allowed:
    Result<bool, RpcError>)
    ensures
        allowed == permitted(permitted_rpcs@, RpcKind::OpenUdpSocket, *req),
{
    validate_open_socket(permitted_rpcs, RpcKind::OpenUdpSocket, req)
}

/// Decides on a request: one that no rule permits is refused, one that
/// cannot be read is badly formed, and any other is to be opened.
pub fn handle_rpc(permitted_rpcs: &[RpcSpecification], kind: RpcKind, req: &OpenSocket) -> (decision:
    RpcDecision)
    ensures
        decision == decided(permitted_rpcs@, kind, *req),
{
    let allowed = match kind {
        RpcKind::OpenTcpSocket => validate_open_tcp_socket(permitted_rpcs, req),
        RpcKind::OpenUdpSocket => validate_open_udp_socket(permitted_rpcs, req),
    };
    match allowed {
        Err(e) => RpcDecision::Refuse(e),
        Ok(false) => RpcDecision::Refuse(RpcError::OperationNotPermitted),
        Ok(true) => match &req.host {
            Some(_) => RpcDecision::Open(kind),
            None => RpcDecision::Refuse(RpcError::BadlyFormedRequest),
        },
    }
}

/// Answers the requests of one void under the rules of its specification.
#[derive(Debug)]
pub struct RpcHandler<'a> {
    permitted_rpcs: &'a [RpcSpecification],
}

impl<'a> RpcHandler<'a> {
    /// The rules that this handler judges by.
    pub closed spec fn rules(self) -> Seq<RpcSpecification> {
        self.permitted_rpcs@
    }

    /// A handler that judges by the given rules.
    pub fn new(permitted_rpcs: &'a [RpcSpecification]) -> (handler: Self)
        ensures
            handler.rules() == permitted_rpcs@,
    {
        Self { permitted_rpcs }
    }

    /// Decides on one request.
    pub fn handle(&self, kind: RpcKind, req: &OpenSocket) -> (decision: RpcDecision)
        ensures
            decision == decided(self.rules(), kind, *req),
    {
        handle_rpc(self.permitted_rpcs, kind, req)
    }
}

} // verus!
