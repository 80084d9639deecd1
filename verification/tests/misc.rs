use proxy_rs::app_config::{EthanInBoundConfig, EthanOutBoundConfig, LogLevel, LogLevelFilter};
use proxy_rs::dns_resolver::{
    average, is_valid_domain, name_server_text, pick_fastest, query_name, usable_server_count,
};
use proxy_rs::ethan_inbound::{bind_response, frame_missing, AuthOutcome, EthanInBound};
use proxy_rs::ethan_outbound::{auth_result, bind_result, framed, EthanOutBound};
use proxy_rs::ethan_proto::{AuthRequest, ConnectRequest, DstType, EthanResponse};
use proxy_rs::gui::{clean_log_line, log_color, logger_enabled, GuiTask, LogColor, Message, ProxyGUI};
use proxy_rs::net::IpAddress;
use proxy_rs::start_args::StartArgs;
use proxy_rs::utils::expand_path;
use proxy_rs::ProxyError;
use std::sync::Arc;

#[test]
fn expand_path_test() {
    let final_path = expand_path("./file.json", Some("/home/me"), "/tmp/work");
    assert!(final_path.chars().count() > "/file.json".chars().count());
    assert_eq!(final_path, "/tmp/work/file.json");
}

#[test]
fn expand_home_paths() {
    assert_eq!(expand_path("~", Some("/home/me"), "/w"), "/home/me");
    assert_eq!(expand_path("~/a/b", Some("/home/me/"), "/w"), "/home/me/a/b");
    assert_eq!(expand_path("~/a", None, "/w"), "~/a");
    assert_eq!(expand_path("/etc/x", Some("/h"), "/w"), "/etc/x");
    assert_eq!(expand_path("~x", Some("/h"), "/w"), "~x");
}

#[test]
fn domain_validity() {
    assert!(is_valid_domain("www.baidu.com"));
    assert!(is_valid_domain("a-b.example"));
    assert!(!is_valid_domain("www..baidu.com"));
    assert!(!is_valid_domain("-a.com"));
    assert!(!is_valid_domain("a-.com"));
    assert!(!is_valid_domain("ex ample.com"));
    assert!(!is_valid_domain("bücher.de"));
    assert!(!is_valid_domain(&"a".repeat(64)));
    assert!(is_valid_domain(&"a".repeat(63)));
    assert!(!is_valid_domain("www.baidu.com."));
    assert_eq!(query_name("www.baidu.com"), Some("www.baidu.com.".to_string()));
    assert_eq!(query_name("bad..name"), None);
}

#[test]
fn name_servers_get_port_53() {
    assert_eq!(name_server_text("8.8.8.8"), "8.8.8.8:53");
    assert_eq!(name_server_text("1.1.1.1:5353"), "1.1.1.1:5353");
}

#[test]
fn fastest_address() {
    let a = IpAddress::V4([1, 1, 1, 1]);
    let b = IpAddress::V4([2, 2, 2, 2]);
    let c = IpAddress::V4([3, 3, 3, 3]);
    assert_eq!(pick_fastest(&[]), None);
    assert_eq!(pick_fastest(&[(30, a), (10, b), (10, c)]), Some(b));
    assert_eq!(average(&[10, 20, 31]), 20);
}

#[test]
fn ethan_server_checks_credentials() {
    let config = EthanInBoundConfig::new(10800, "uid".into(), "pwd".into(), None);
    let inbound = EthanInBound::new(Arc::new(config));
    let good = AuthRequest::new("uid".into(), "pwd".into()).as_bytes();
    match inbound.check_auth(&good) {
        AuthOutcome::Checked(resp, res) => {
            assert_eq!(resp, EthanResponse::new(true, None));
            assert!(res.is_ok());
        }
        AuthOutcome::Malformed(_) => panic!("well formed"),
    }
    let bad = AuthRequest::new("uid".into(), "nope".into()).as_bytes();
    match inbound.check_auth(&bad) {
        AuthOutcome::Checked(resp, res) => {
            assert_eq!(resp, EthanResponse::new(false, Some("uid and pwd is incorrect".into())));
            assert!(auth_result(&resp).is_err());
            assert!(matches!(res, Err(ProxyError::EthanAuthUserPwdIncorrect(u, p)) if u == "uid" && p == "nope"));
        }
        AuthOutcome::Malformed(_) => panic!("well formed"),
    }
    assert!(matches!(inbound.check_auth(b"nothing"), AuthOutcome::Malformed(ProxyError::EthanAuthRequestParseError)));
    assert_eq!(bind_response(Ok(())), EthanResponse::new(true, None));
    assert_eq!(bind_response(Err("refused".into())), EthanResponse::new(false, Some("refused".into())));
    assert_eq!(frame_missing(&[]), 1);
    assert_eq!(frame_missing(&[3, 1]), 2);
    assert_eq!(frame_missing(&[1, 9]), 0);
}

#[test]
fn ethan_client_frames_and_results() {
    let config = EthanOutBoundConfig::new("proxy".into(), "1.2.3.4".into(), 10800, "u".into(), "p".into(), None);
    let outbound = EthanOutBound::new(Arc::new(config));
    assert_eq!(outbound.auth_frame(), vec![6, b'u', 0xF0, 0x9F, 0x92, 0x8C, b'p']);
    let request = ConnectRequest::new(80, DstType::Ipv4([9, 9, 9, 9]));
    assert_eq!(outbound.connect_frame(&request), vec![7, 0, 80, 1, 9, 9, 9, 9]);
    assert_eq!(framed(&[]), vec![0]);
    assert!(auth_result(&EthanResponse::new(true, None)).is_ok());
    match auth_result(&EthanResponse::new(false, None)) {
        Err(ProxyError::EthanAuthFailed(m)) => assert_eq!(m, "server not return auth failed reason"),
        other => panic!("unexpected {:?}", other),
    }
    match bind_result(&EthanResponse::new(false, Some("no route".into()))) {
        Err(ProxyError::EthanBindError(m)) => assert_eq!(m, "no route"),
        other => panic!("unexpected {:?}", other),
    }
}

#[test]
fn error_messages() {
    assert_eq!(ProxyError::Socks5VersionIncorrect.message(), "Socks5 version is incorrect");
    assert_eq!(ProxyError::Socks5CmdParseError(7).message(), "Unknown Socks5 command type value:7");
    assert_eq!(ProxyError::Socks5CmdParseError(255).message(), "Unknown Socks5 command type value:255");
    assert_eq!(ProxyError::Socks5CmdParseError(42).message(), "Unknown Socks5 command type value:42");
    assert_eq!(
        ProxyError::EthanAuthUserPwdIncorrect("a".into(), "b".into()).message(),
        "User and pwd not incorrect, a b"
    );
    assert_eq!(ProxyError::EthanBindError("x".into()).message(), "Ethan bind failed, reason: x");
}

#[test]
fn window_messages() {
    let mut gui = ProxyGUI::new();
    assert!(!gui.system_proxy_enabled());
    assert_eq!(gui.toggle_message(), Message::Start);
    assert_eq!(gui.update(Message::Start), GuiTask::StartProxy);
    assert_eq!(gui.update(Message::Started), GuiTask::Nothing);
    assert!(gui.system_proxy_enabled());
    assert_eq!(gui.toggle_message(), Message::Stop);
    assert_eq!(gui.update(Message::Newlog("line".into())), GuiTask::Nothing);
    assert_eq!(gui.logs(), &["line".to_string()]);
    assert_eq!(gui.update(Message::Stopped), GuiTask::DisableSystemProxy);
    assert!(!gui.system_proxy_enabled());
}

#[test]
fn log_lines() {
    assert_eq!(log_color("12/01 ERROR boom"), LogColor::Error);
    assert_eq!(log_color("12/01 WARN careful"), LogColor::Warn);
    assert_eq!(log_color("12/01 INFO fine"), LogColor::Normal);
    assert_eq!(clean_log_line("a\r\nb\tc\rd\n"), "abcd");
    assert!(!logger_enabled(LogLevel::Info, LogLevelFilter::Info, "iced_winit::x"));
    assert!(logger_enabled(LogLevel::Info, LogLevelFilter::Info, "proxy_rs::socks"));
    assert!(logger_enabled(LogLevel::Trace, LogLevelFilter::Info, "iced"));
}

#[test]
fn start_args() {
    assert_eq!(StartArgs::new(Some("c.toml".into())).config(), Some("c.toml"));
    assert_eq!(StartArgs::new(None).config(), None);
}

#[test]
fn server_reads_a_frame_exactly() {
    let payload: Vec<u8> = (0u8..200).collect();
    let frame = framed(&payload);
    assert_eq!(frame.len(), 201);
    for k in 0..=frame.len() {
        let expected = if k == 0 { 1 } else { frame.len() - k };
        assert_eq!(frame_missing(&frame[..k]), expected);
    }
    assert_eq!(&frame[1..], &payload[..]);
}

#[test]
fn client_credentials_are_accepted_by_the_server() {
    let client = EthanOutBound::new(Arc::new(EthanOutBoundConfig::new(
        "proxy".to_string(),
        "127.0.0.1".to_string(),
        10800,
        "ethan.wang".to_string(),
        "pass01!".to_string(),
        None,
    )));
    let frame = client.auth_frame();
    assert_eq!(frame_missing(&frame), 0);
    let server = EthanInBound::new(Arc::new(EthanInBoundConfig::new(
        10800,
        "ethan.wang".to_string(),
        "pass01!".to_string(),
        None,
    )));
    match server.check_auth(&frame[1..]) {
        AuthOutcome::Checked(response, Ok(())) => {
            assert!(response.res());
            assert!(response.reason().is_none());
        }
        other => panic!("unexpected outcome: {:?}", other),
    }
    let other_server = EthanInBound::new(Arc::new(EthanInBoundConfig::new(
        10800,
        "ethan.wang".to_string(),
        "other".to_string(),
        None,
    )));
    match other_server.check_auth(&frame[1..]) {
        AuthOutcome::Checked(response, Err(ProxyError::EthanAuthUserPwdIncorrect(u, p))) => {
            assert!(!response.res());
            assert_eq!(response.reason().as_deref(), Some("uid and pwd is incorrect"));
            assert_eq!(u, "ethan.wang");
            assert_eq!(p, "pass01!");
        }
        other => panic!("unexpected outcome: {:?}", other),
    }
}

#[test]
fn name_servers_up_to_the_first_malformed() {
    assert_eq!(usable_server_count(&[]), 0);
    assert_eq!(usable_server_count(&[true, true]), 2);
    assert_eq!(usable_server_count(&[true, false, true]), 1);
    assert_eq!(usable_server_count(&[false, true]), 0);
}
