use void_orchestrator::rpc::{
    handle_rpc, validate_open_tcp_socket, validate_open_udp_socket, OpenSocket, RequestFamily,
    RpcDecision, RpcError, RpcHandler, RpcKind, RpcResult, RpcResultSend,
};
use void_orchestrator::specification::{AddressFamily, RpcSpecification};

fn request(family: RequestFamily, port: u16, host: Option<&str>) -> OpenSocket {
    OpenSocket { family, port, host: host.map(|h| h.to_string()) }
}

fn tcp(family: Option<AddressFamily>, port: Option<u16>, host: Option<&str>) -> RpcSpecification {
    RpcSpecification::OpenTcpSocket { family, port, host: host.map(|h| h.to_string()) }
}

fn udp(family: Option<AddressFamily>, port: Option<u16>, host: Option<&str>) -> RpcSpecification {
    RpcSpecification::OpenUdpSocket { family, port, host: host.map(|h| h.to_string()) }
}

#[test]
fn no_request_carries_descriptors() {
    assert_eq!(RpcKind::OpenTcpSocket.num_fds(), 0);
    assert_eq!(RpcKind::OpenUdpSocket.num_fds(), 0);
}

#[test]
fn unrestricted_rule_permits_anything_of_its_kind() {
    let rules = vec![tcp(None, None, None)];
    let req = request(RequestFamily::Other, 80, None);
    assert_eq!(validate_open_tcp_socket(&rules, &req), Ok(true));
    assert_eq!(validate_open_udp_socket(&rules, &req), Ok(false));
    assert_eq!(validate_open_tcp_socket(&[], &req), Ok(false));
}

#[test]
fn every_restriction_must_be_met() {
    let rules = vec![
        udp(Some(AddressFamily::Inet), Some(53), Some("ns.example.org")),
        tcp(Some(AddressFamily::Inet6), Some(443), Some("example.org")),
    ];
    let good = request(RequestFamily::Inet6, 443, Some("example.org"));
    assert_eq!(validate_open_tcp_socket(&rules, &good), Ok(true));
    assert_eq!(
        validate_open_tcp_socket(&rules, &request(RequestFamily::Inet, 443, Some("example.org"))),
        Ok(false)
    );
    assert_eq!(
        validate_open_tcp_socket(&rules, &request(RequestFamily::Inet6, 80, Some("example.org"))),
        Ok(false)
    );
    assert_eq!(
        validate_open_tcp_socket(&rules, &request(RequestFamily::Inet6, 443, Some("example.com"))),
        Ok(false)
    );
    assert_eq!(
        validate_open_udp_socket(&rules, &request(RequestFamily::Inet, 53, Some("ns.example.org"))),
        Ok(true)
    );
}

#[test]
fn unreadable_host_is_badly_formed_where_a_rule_names_one() {
    let rules = vec![tcp(None, Some(1), None), tcp(None, None, Some("h")), tcp(None, None, None)];
    assert_eq!(
        validate_open_tcp_socket(&rules, &request(RequestFamily::Inet, 2, None)),
        Err(RpcError::BadlyFormedRequest)
    );
    assert_eq!(validate_open_tcp_socket(&rules, &request(RequestFamily::Inet, 1, None)), Ok(true));
}

#[test]
fn requests_are_decided() {
    let rules = vec![tcp(None, Some(80), None)];
    assert_eq!(
        handle_rpc(&rules, RpcKind::OpenTcpSocket, &request(RequestFamily::Inet, 80, Some("h"))),
        RpcDecision::Open(RpcKind::OpenTcpSocket)
    );
    assert_eq!(
        handle_rpc(&rules, RpcKind::OpenTcpSocket, &request(RequestFamily::Inet, 81, Some("h"))),
        RpcDecision::Refuse(RpcError::OperationNotPermitted)
    );
    assert_eq!(
        handle_rpc(&rules, RpcKind::OpenUdpSocket, &request(RequestFamily::Inet, 80, Some("h"))),
        RpcDecision::Refuse(RpcError::OperationNotPermitted)
    );
    assert_eq!(
        handle_rpc(&rules, RpcKind::OpenTcpSocket, &request(RequestFamily::Inet, 80, None)),
        RpcDecision::Refuse(RpcError::BadlyFormedRequest)
    );
    let handler = RpcHandler::new(&rules);
    assert_eq!(
        handler.handle(RpcKind::OpenTcpSocket, &request(RequestFamily::Inet6, 80, Some("x"))),
        RpcDecision::Open(RpcKind::OpenTcpSocket)
    );
}

#[test]
fn results_are_split_into_message_and_descriptors() {
    assert_eq!(
        RpcResultSend::new(RpcResult::OpenTcpSocket { socket: 5 }),
        (RpcResultSend::OpenTcpSocket, vec![5])
    );
    assert_eq!(
        RpcResultSend::new(RpcResult::OpenUdpSocket { socket: 6 }),
        (RpcResultSend::OpenUdpSocket, vec![6])
    );
    assert_eq!(
        RpcResultSend::new(RpcResult::Error { error: RpcError::Io { errno: 13 } }),
        (RpcResultSend::Error { error: RpcError::Io { errno: 13 } }, vec![])
    );
}
