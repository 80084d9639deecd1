use proxy_rs::ethan_proto::{AuthRequest, ConnectRequest, DstType, EthanProtoError, EthanResponse};
use proxy_rs::socks5_proto::SocksAddressType;
use proxy_rs::ProxyError;

const IPV6_SAMPLE: [u8; 16] = [
    0x20, 0x01, 0x0d, 0xb8, 0x85, 0xa3, 0x00, 0x00, 0x00, 0x00, 0x8a, 0x2e, 0x03, 0x70, 0x73, 0x34,
];

#[test]
fn auth_request_test() {
    let request = AuthRequest::new("uid".into(), "pwd".into());
    let bytes = request.as_bytes();
    let request2 = AuthRequest::try_from(bytes.as_slice()).unwrap();
    assert_eq!(request.pwd(), request2.pwd());
    assert_eq!(request.uid(), request2.uid());
    assert_eq!(request2.pwd(), "pwd");
    assert_eq!(request2.uid(), "uid");
}

#[test]
fn ethan_proto_auth_request_test() {
    let request = AuthRequest::new("uid".into(), "pwd".into());
    let request_clone = AuthRequest::new("uid".into(), "pwd".into());
    let bytes = request.into_bytes();
    let request2 = AuthRequest::try_from(bytes.as_slice()).unwrap();
    assert_eq!(request_clone.pwd(), request2.pwd());
    assert_eq!(request_clone.uid(), request2.uid());
    assert_eq!(request2.pwd(), "pwd");
    assert_eq!(request2.uid(), "uid");
}

#[test]
fn dsttype_test() {
    let t1 = DstType::Ipv4([192u8, 168, 100, 1]);
    let t1_bytes = t1.as_bytes();
    let t1_recovered = DstType::from_bytes(t1_bytes.as_slice()).unwrap();
    assert_eq!(t1, t1_recovered);

    let t2 = DstType::DomainName("www.baidu.com".into());
    let t2_bytes = t2.as_bytes();
    let t2_recovered = DstType::from_bytes(&t2_bytes).unwrap();
    assert_eq!(t2, t2_recovered);

    let t3 = DstType::Ipv6(IPV6_SAMPLE);
    let t3_bytes = t3.as_bytes();
    let t3_recovered = DstType::from_bytes(&t3_bytes).unwrap();
    assert_eq!(t3, t3_recovered);
}

#[test]
fn connect_request_test() {
    let domain_connect_request =
        ConnectRequest::new(9000, DstType::DomainName("www.baidu.com".into()));
    let tmp = domain_connect_request.as_bytes();
    let domain_connect_request2 = ConnectRequest::try_from(tmp.as_slice()).unwrap();
    assert_eq!(domain_connect_request, domain_connect_request2);

    let ipv4_connect_request = ConnectRequest::new(8000, DstType::Ipv4([192u8, 168, 100, 1]));
    let tmp = ipv4_connect_request.as_bytes();
    let ipv4_connect_request2 = ConnectRequest::try_from(tmp.as_slice()).unwrap();
    assert_eq!(ipv4_connect_request, ipv4_connect_request2);

    let ipv6_connect_request = ConnectRequest::new(1000, DstType::Ipv6(IPV6_SAMPLE));
    let tmp = ipv6_connect_request.as_bytes();
    let ipv6_connect_request2 = ConnectRequest::try_from(tmp.as_slice()).unwrap();
    assert_eq!(ipv6_connect_request, ipv6_connect_request2);
}

#[test]
fn ethan_proto_connect_request_test() {
    let domain_connect_request =
        ConnectRequest::new(9000, DstType::DomainName("www.baidu.com".into()));
    let cloned = domain_connect_request.clone();
    let tmp = domain_connect_request.as_bytes();
    let domain_connect_request2 = ConnectRequest::try_from(tmp.as_slice()).unwrap();
    assert_eq!(cloned, domain_connect_request2);

    let ipv4_connect_request = ConnectRequest::new(8000, DstType::Ipv4([192u8, 168, 100, 1]));
    let cloned = ipv4_connect_request.clone();
    let tmp = ipv4_connect_request.as_bytes();
    let ipv4_connect_request2 = ConnectRequest::try_from(tmp.as_slice()).unwrap();
    assert_eq!(cloned, ipv4_connect_request2);

    let ipv6_connect_request = ConnectRequest::new(1000, DstType::Ipv6(IPV6_SAMPLE));
    let cloned = ipv6_connect_request.clone();
    let tmp = ipv6_connect_request.as_bytes();
    let ipv6_connect_request2 = ConnectRequest::try_from(tmp.as_slice()).unwrap();
    assert_eq!(cloned, ipv6_connect_request2);
}

#[test]
fn response_rest() {
    let response = EthanResponse::new(true, None);
    let bytes = response.as_bytes();
    let response2 = EthanResponse::try_from(bytes.as_slice());
    assert_eq!(response, response2);

    let false_response = EthanResponse::new(false, Some("failed message".into()));
    let bytes = false_response.as_bytes();
    let false_response2 = EthanResponse::try_from(bytes.as_slice());
    assert_eq!(false_response, false_response2);
}

#[test]
fn ethan_proto_response_rest() {
    let response = EthanResponse::new(true, None);
    let bytes = response.as_bytes();
    let response2 = EthanResponse::try_from(bytes.as_slice());
    assert_eq!(response, response2);

    let false_response = EthanResponse::new(false, Some("failed message".into()));
    let bytes = false_response.as_bytes();
    let false_response2 = EthanResponse::try_from(bytes.as_slice());
    assert_eq!(false_response, false_response2);
}

#[test]
fn connect_request_wire_form() {
    let request = ConnectRequest::new(0x1F90, DstType::Ipv4([10, 0, 0, 1]));
    assert_eq!(request.as_bytes(), vec![0x1F, 0x90, 1, 10, 0, 0, 1]);
    let request = ConnectRequest::new(443, DstType::DomainName("ab".into()));
    assert_eq!(request.as_bytes(), vec![0x01, 0xBB, 3, 2, b'a', b'b']);
    assert_eq!(DstType::DomainName("ab".into()).len(), 4);
    assert_eq!(DstType::Ipv4([1, 2, 3, 4]).len(), 5);
    assert_eq!(DstType::Ipv6(IPV6_SAMPLE).len(), 17);
}

#[test]
fn dst_unknown_flag() {
    assert_eq!(DstType::from_bytes(&[9, 1, 2]), Err(EthanProtoError::UnknownFlag(9)));
    assert_eq!(ConnectRequest::try_from(&[0, 80, 7]), Err(EthanProtoError::UnknownFlag(7)));
}

#[test]
fn dst_trailing_bytes_ignored() {
    let d = DstType::from_bytes(&[1, 8, 8, 4, 4, 99, 99]).unwrap();
    assert_eq!(d, DstType::Ipv4([8, 8, 4, 4]));
    let d = DstType::from_bytes(&[3, 1, b'x', b'y']).unwrap();
    assert_eq!(d, DstType::DomainName("x".into()));
}

#[test]
fn domain_invalid_utf8_is_replaced() {
    let d = DstType::from_bytes(&[3, 2, 0xFF, b'a']).unwrap();
    assert_eq!(d, DstType::DomainName("\u{FFFD}a".into()));
}

#[test]
fn connect_request_accessors() {
    let request = ConnectRequest::new(53, DstType::DomainName("dns.example".into()));
    assert_eq!(request.port(), 53);
    assert_eq!(request.dst_as_atp(), SocksAddressType::Domain);
    assert_eq!(request.addr(), b"dns.example".to_vec());
    assert_eq!(request.dst_type(), &DstType::DomainName("dns.example".into()));
    let request = ConnectRequest::new(53, DstType::Ipv6(IPV6_SAMPLE));
    assert_eq!(request.dst_as_atp(), SocksAddressType::Ipv6);
    assert_eq!(request.addr(), IPV6_SAMPLE.to_vec());
}

#[test]
fn connect_request_from_socks_address() {
    let r = ConnectRequest::from_socks_address(SocksAddressType::Ipv4, &[127, 0, 0, 1], 80);
    assert_eq!(r, ConnectRequest::new(80, DstType::Ipv4([127, 0, 0, 1])));
    let r = ConnectRequest::from_socks_address(SocksAddressType::Domain, b"a.b", 8080);
    assert_eq!(r, ConnectRequest::new(8080, DstType::DomainName("a.b".into())));
    let r = ConnectRequest::from_socks_address(SocksAddressType::Ipv6, &[1, 2, 3], 1);
    assert_eq!(r, ConnectRequest::new(1, DstType::Ipv6([0; 16])));
    let r = ConnectRequest::from_socks_address(SocksAddressType::Ipv6, &IPV6_SAMPLE, 1);
    assert_eq!(r, ConnectRequest::new(1, DstType::Ipv6(IPV6_SAMPLE)));
}

#[test]
fn response_wire_form() {
    assert_eq!(EthanResponse::new(true, None).as_bytes(), vec![1, 0]);
    assert_eq!(EthanResponse::new(false, Some("no".into())).as_bytes(), vec![0, 2, b'n', b'o']);
    assert_eq!(EthanResponse::new(true, None).into_response_bytes(), vec![2, 1, 0]);
    let r = EthanResponse::try_from(&[7, 0]);
    assert!(r.res());
    assert_eq!(r.reason(), &None);
}

#[test]
fn response_empty_reason_reads_back_as_none() {
    let bytes = EthanResponse::new(false, Some(String::new())).as_bytes();
    assert_eq!(bytes, vec![0, 0]);
    assert_eq!(EthanResponse::try_from(bytes.as_slice()), EthanResponse::new(false, None));
}

#[test]
fn auth_request_wire_form() {
    let bytes = AuthRequest::new("u".into(), "p".into()).as_bytes();
    assert_eq!(bytes, vec![b'u', 0xF0, 0x9F, 0x92, 0x8C, b'p']);
}

#[test]
fn auth_request_without_separator() {
    let r = AuthRequest::try_from(b"no separator here");
    assert!(matches!(r, Err(ProxyError::EthanAuthRequestParseError)));
}

#[test]
fn auth_request_splits_at_first_separator() {
    let request = AuthRequest::new("a".into(), "b\u{1F48C}c".into());
    let back = AuthRequest::try_from(request.as_bytes().as_slice()).unwrap();
    assert_eq!(back.uid(), "a");
    assert_eq!(back.pwd(), "b\u{1F48C}c");
    let request = AuthRequest::new("a\u{1F48C}b".into(), "c".into());
    let back = AuthRequest::try_from(request.as_bytes().as_slice()).unwrap();
    assert_eq!(back.uid(), "a");
    assert_eq!(back.pwd(), "b\u{1F48C}c");
}
