use proxy_rs::ethan_proto::{ConnectRequest, DstType};
use proxy_rs::socks5_inbound::{
    after_method, connect_success_reply, find_both_support_auth_method, get_both_auth_method,
    greeting_reply, greeting_step, request_step, userpwd_reply, userpwd_step, valid_socks_ver,
    Greeting, RequestFailure, RequestStep, Socks5InBound, UserPwdFailure, UserPwdStep,
};
use proxy_rs::app_config::SocksInBoundConfig;
use proxy_rs::dns_config::DnsConfig;
use std::sync::Arc;
use proxy_rs::socks5_proto::{AuthMethod, Cmd, SocksAddressType, SocksResponse, SocksResponseType};
use proxy_rs::ProxyError;

#[test]
fn get_both_auth_method_test() {
    let client_auth_methods = [AuthMethod::NoAuth, AuthMethod::UserPwd];
    let supported = get_both_auth_method(&client_auth_methods);
    assert_eq!(supported, Some(&AuthMethod::UserPwd));
}

#[test]
fn socks5_inbound_get_both_auth_method_test() {
    let client_auth_methods = [AuthMethod::NoAuth, AuthMethod::UserPwd];
    let supported = get_both_auth_method(&client_auth_methods);
    assert_eq!(supported, Some(&AuthMethod::UserPwd));
}

#[test]
fn auth_method_choice_edges() {
    assert_eq!(get_both_auth_method(&[]), None);
    assert_eq!(get_both_auth_method(&[AuthMethod::Gssapi, AuthMethod::Reject]), None);
    assert_eq!(get_both_auth_method(&[AuthMethod::Gssapi, AuthMethod::NoAuth]), Some(&AuthMethod::NoAuth));
    assert_eq!(
        get_both_auth_method(&[AuthMethod::UserPwd, AuthMethod::NoAuth, AuthMethod::UserPwd]),
        Some(&AuthMethod::UserPwd)
    );
}

#[test]
fn common_methods_keep_server_order() {
    let server = [AuthMethod::NoAuth, AuthMethod::UserPwd];
    assert_eq!(
        find_both_support_auth_method(&[AuthMethod::UserPwd, AuthMethod::NoAuth], &server),
        vec![AuthMethod::NoAuth, AuthMethod::UserPwd]
    );
    assert_eq!(find_both_support_auth_method(&[AuthMethod::Gssapi], &server), vec![]);
}

#[test]
fn auth_method_bytes() {
    assert_eq!(AuthMethod::from(0u8), AuthMethod::NoAuth);
    assert_eq!(AuthMethod::from(2u8), AuthMethod::UserPwd);
    assert_eq!(AuthMethod::from(0x42u8), AuthMethod::Reject);
    assert_eq!(u8::from(AuthMethod::Reject), 0xFF);
    assert_eq!(u8::from(AuthMethod::Gssapi), 1);
    assert_eq!(Cmd::try_from(1), Some(Cmd::Connect));
    assert_eq!(Cmd::try_from(9), None);
}

#[test]
fn version_check() {
    assert!(valid_socks_ver(5).is_ok());
    assert!(matches!(valid_socks_ver(4), Err(ProxyError::Socks5VersionIncorrect)));
}

#[test]
fn greeting_steps() {
    for required in [false, true] {
        assert!(matches!(greeting_step(&[], required), Greeting::NeedMore(1)));
        assert!(matches!(greeting_step(&[4], required), Greeting::VersionIncorrect));
        assert!(matches!(greeting_step(&[5], required), Greeting::NeedMore(1)));
        assert!(matches!(greeting_step(&[5, 2], required), Greeting::NeedMore(2)));
        assert!(matches!(greeting_step(&[5, 1, 1], required), Greeting::NoSupportedMethod));
    }
    // Without configured credentials: no authentication.
    assert!(matches!(greeting_step(&[5, 2, 0, 2], false), Greeting::Chosen(AuthMethod::NoAuth)));
    assert!(matches!(greeting_step(&[5, 1, 0], false), Greeting::Chosen(AuthMethod::NoAuth)));
    assert!(matches!(greeting_step(&[5, 1, 2], false), Greeting::NoSupportedMethod));
    // With configured credentials: the password exchange, and nothing else.
    assert!(matches!(greeting_step(&[5, 2, 0, 2], true), Greeting::Chosen(AuthMethod::UserPwd)));
    assert!(matches!(greeting_step(&[5, 1, 0], true), Greeting::NoSupportedMethod));
    assert_eq!(greeting_reply(AuthMethod::UserPwd), vec![5, 2]);
    assert!(matches!(after_method(AuthMethod::NoAuth), Ok(false)));
    assert!(matches!(after_method(AuthMethod::UserPwd), Ok(true)));
    assert!(matches!(after_method(AuthMethod::Gssapi), Err(ProxyError::Socks5NoSupportAuthMethod)));
    assert!(matches!(after_method(AuthMethod::Reject), Err(ProxyError::Socks5AuthReject)));
}

#[test]
fn user_password_steps() {
    assert!(matches!(userpwd_step(&[], "u", "p"), UserPwdStep::NeedMore(1)));
    assert!(matches!(userpwd_step(&[2], "u", "p"), UserPwdStep::Reject(UserPwdFailure::Version)));
    assert!(matches!(userpwd_step(&[1, 1], "u", "p"), UserPwdStep::NeedMore(1)));
    assert!(matches!(userpwd_step(&[1, 1, b'x'], "u", "p"), UserPwdStep::Reject(UserPwdFailure::User)));
    assert!(matches!(userpwd_step(&[1, 1, b'u'], "u", "p"), UserPwdStep::NeedMore(1)));
    assert!(matches!(userpwd_step(&[1, 1, b'u', 2], "u", "p"), UserPwdStep::NeedMore(2)));
    assert!(matches!(
        userpwd_step(&[1, 1, b'u', 1, b'q'], "u", "p"),
        UserPwdStep::Reject(UserPwdFailure::Password)
    ));
    assert!(matches!(userpwd_step(&[1, 1, b'u', 1, b'p'], "u", "p"), UserPwdStep::Accept));
    assert!(matches!(userpwd_step(&[1, 0, 0], "", ""), UserPwdStep::Accept));
    assert_eq!(userpwd_reply(true), vec![1, 0]);
    assert_eq!(userpwd_reply(false), vec![1, 1]);
    match UserPwdFailure::User.into_error() {
        ProxyError::Socks5AuthError(m) => assert_eq!(m, "User is incorrect!"),
        other => panic!("unexpected {:?}", other),
    }
}

#[test]
fn request_steps() {
    assert!(matches!(request_step(&[]), RequestStep::NeedMore(1)));
    assert!(matches!(request_step(&[4]), RequestStep::Failed(RequestFailure::Version)));
    assert!(matches!(request_step(&[5, 9]), RequestStep::Failed(RequestFailure::UnknownCommand(9))));
    assert!(matches!(request_step(&[5, 1]), RequestStep::NeedMore(2)));
    assert!(matches!(request_step(&[5, 1, 0, 2]), RequestStep::Failed(RequestFailure::UnknownAddressType)));
    assert!(matches!(request_step(&[5, 1, 0, 1]), RequestStep::NeedMore(6)));
    assert!(matches!(request_step(&[5, 1, 0, 3]), RequestStep::NeedMore(1)));
    assert!(matches!(request_step(&[5, 1, 0, 3, 3]), RequestStep::NeedMore(5)));
    match request_step(&[5, 1, 0, 1, 10, 0, 0, 1, 0x1F, 0x90]) {
        RequestStep::Ready(cmd, request) => {
            assert_eq!(cmd, Cmd::Connect);
            assert_eq!(request, ConnectRequest::new(8080, DstType::Ipv4([10, 0, 0, 1])));
        }
        other => panic!("unexpected {:?}", other),
    }
    match request_step(&[5, 2, 0, 3, 3, b'a', b'.', b'b', 0, 80]) {
        RequestStep::Ready(cmd, request) => {
            assert_eq!(cmd, Cmd::Bind);
            assert_eq!(request, ConnectRequest::new(80, DstType::DomainName("a.b".into())));
        }
        other => panic!("unexpected {:?}", other),
    }
    assert!(matches!(RequestFailure::UnknownCommand(9).into_error(), ProxyError::Socks5CmdParseError(9)));
}

#[test]
fn connect_reply_bytes() {
    let request = ConnectRequest::new(8080, DstType::Ipv4([10, 0, 0, 1]));
    assert_eq!(connect_success_reply(&request), vec![5, 0, 0, 1, 10, 0, 0, 1, 0x1F, 0x90]);
    let request = ConnectRequest::new(80, DstType::DomainName("ab".into()));
    assert_eq!(connect_success_reply(&request), vec![5, 0, 0, 3, 2, b'a', b'b', 0, 80]);
}

#[test]
fn response_builder_defaults() {
    let response = SocksResponse::builder().build();
    assert_eq!(response.rep(), SocksResponseType::ServerError);
    assert_eq!(response.to_bytes(), vec![5, 1, 0, 1, 0, 0]);
    let mut builder = SocksResponse::builder();
    builder.atyp(SocksAddressType::Ipv6).dst_addr(vec![0; 16]).dst_port(1);
    let bytes = builder.build().to_bytes();
    assert_eq!(bytes.len(), 4 + 16 + 2);
    assert_eq!(bytes[3], 4);
}

#[test]
fn inbound_greeting_follows_configuration() {
    let open = Socks5InBound::new(
        Arc::new(SocksInBoundConfig::new(1080, None, None)),
        Arc::new(DnsConfig::default()),
    );
    match open.greeting_step(&[0x05, 0x02, 0x00, 0x02]) {
        Greeting::Chosen(m) => assert_eq!(greeting_reply(m), vec![0x05, 0x00]),
        other => panic!("unexpected: {:?}", other),
    }
    let guarded = Socks5InBound::new(
        Arc::new(SocksInBoundConfig::new(1080, Some("u".to_string()), Some("p".to_string()))),
        Arc::new(DnsConfig::default()),
    );
    assert!(matches!(guarded.greeting_step(&[0x05, 0x01, 0x00]), Greeting::NoSupportedMethod));
    match guarded.greeting_step(&[0x05, 0x02, 0x00, 0x02]) {
        Greeting::Chosen(m) => assert_eq!(greeting_reply(m), vec![0x05, 0x02]),
        other => panic!("unexpected: {:?}", other),
    }
}
