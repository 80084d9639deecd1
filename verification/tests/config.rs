use proxy_rs::app_config::{
    AccessLogConfig, AppConfig, ConfigError, DirectOutputConfig, EthanInBoundConfig,
    EthanOutBoundConfig, InBoundTypeConfig, LogConfig, LogLevel, LogLevelFilter,
    OutBoundTypeConfig, SocksInBoundConfig, TlsClientConfig, TlsServerConfig,
};
use proxy_rs::dns_config::{DNSResolver, DnsConfig};
use proxy_rs::ethan_proto::{ConnectRequest, DstType};
use proxy_rs::factory::{InBound, InBoundFactory, OutBound, OutBoundFactory, OutBoundType};
use proxy_rs::net::IpAddress;
use proxy_rs::route_config::{GeoInfo, RouteConfig, RouteManager, RuleType};
use std::sync::Arc;

fn sample_config() -> AppConfig {
    let log = LogConfig::new(AccessLogConfig::new("info".into(), "/tmp/access.log".into()));
    let inbound = InBoundTypeConfig::Socks5(SocksInBoundConfig::new(1080, None, None));
    let ethan = EthanOutBoundConfig::new(
        "proxy".into(),
        "127.0.0.1".into(),
        10800,
        "u".into(),
        "p".into(),
        Some(TlsClientConfig {
            use_tls: true,
            domain_name: "dev.ubuntu".into(),
            crt_path: "~/DevSpace/certs/dev.ubuntu.crt".into(),
        }),
    );
    let outbounds = vec![
        OutBoundTypeConfig::Ethan(ethan),
        OutBoundTypeConfig::Direct(DirectOutputConfig::new("direct")),
    ];
    let routes = RouteManager::from_parsed(vec![
        RouteConfig::new(
            "127.0.0.0/8,10.0.0.0/8,172.16.0.0/12,192.168.0.0/16,169.254.0.0/16",
            "direct",
            RuleType::Cidr,
        ),
        RouteConfig::new("CN", "direct", RuleType::GeoipCountry),
        RouteConfig::new(
            "AS4134,AS4837,AS9808,AS24153,AS37963,AS45090,AS136907,AS38355,AS55967",
            "direct",
            RuleType::Geoipasn,
        ),
        RouteConfig::new("*", "proxy", RuleType::Default),
    ]);
    let dns = DnsConfig { resolver: DNSResolver::Local, server: Some(vec!["8.8.8.8".into()]) };
    AppConfig::new(log, inbound, outbounds, routes, dns)
}

#[test]
fn appconfig_get_outbound_test() {
    let appconfig = sample_config();
    let direct_outbound_config = OutBoundTypeConfig::Direct(DirectOutputConfig::new("direct"));

    // www.baidu.com resolved to an address placed in CN.
    let baidu_request = ConnectRequest::new(443, DstType::DomainName("www.baidu.com".into()));
    let cn = GeoInfo { country: Some("CN".into()), asn: Some("AS4837".into()) };
    let get_outbound_config = appconfig
        .get_forward_to_remote(&baidu_request, Some(IpAddress::V4([110, 242, 68, 66])), &cn)
        .unwrap();
    assert_eq!(get_outbound_config, direct_outbound_config);

    let ipv4_request = ConnectRequest::new(443, DstType::Ipv4([192, 168, 100, 100]));
    let get_outbound_config = appconfig
        .get_forward_to_remote(&ipv4_request, None, &GeoInfo { country: None, asn: None })
        .unwrap();
    assert!(matches!(get_outbound_config, OutBoundTypeConfig::Direct(_)), "local ip should be a direct route");

    // www.google.com resolved to an address placed in US.
    let domain_request = ConnectRequest::new(443, DstType::DomainName("www.google.com".into()));
    let us = GeoInfo { country: Some("US".into()), asn: Some("AS15169".into()) };
    let get_outbound_config = appconfig
        .get_forward_to_remote(&domain_request, Some(IpAddress::V4([142, 250, 72, 196])), &us)
        .unwrap();
    if let OutBoundTypeConfig::Ethan(ethan_config) = get_outbound_config {
        assert_eq!(ethan_config.name(), "proxy");
    } else {
        panic!("google.com .should be ethan OutBoundType");
    }
}

#[test]
fn forward_fails_without_routes_or_outbound() {
    let log = LogConfig::new(AccessLogConfig::new("info".into(), "/tmp/a.log".into()));
    let inbound = InBoundTypeConfig::Socks5(SocksInBoundConfig::new(1080, None, None));
    let empty = AppConfig::new(log, inbound, vec![], RouteManager::from_parsed(vec![]), DnsConfig::default());
    let request = ConnectRequest::new(80, DstType::Ipv4([1, 1, 1, 1]));
    let no_geo = GeoInfo { country: None, asn: None };
    assert_eq!(empty.get_forward_to_remote(&request, None, &no_geo), Err(ConfigError::NoRoutes));

    let log = LogConfig::new(AccessLogConfig::new("info".into(), "/tmp/a.log".into()));
    let inbound = InBoundTypeConfig::Socks5(SocksInBoundConfig::new(1080, None, None));
    let routes = RouteManager::new(vec![RouteConfig::new("*", "nowhere", RuleType::Default)]);
    let config = AppConfig::new(log, inbound, vec![], routes, DnsConfig::default());
    assert_eq!(
        config.get_forward_to_remote(&request, None, &no_geo),
        Err(ConfigError::NoOutboundNamed("nowhere".into()))
    );
}

#[test]
fn outbound_names_ignore_ascii_case() {
    let direct = OutBoundTypeConfig::Direct(DirectOutputConfig::new("Direct"));
    assert!(direct.eq_name_ignore_case("direct"));
    assert!(direct.eq_name_ignore_case("DIRECT"));
    assert!(!direct.eq_name_ignore_case("direct2"));
}

#[test]
fn log_levels() {
    let log = LogConfig::new(AccessLogConfig::new("Info".into(), "/tmp/access.log".into()));
    assert_eq!(log.level(), Ok(LogLevel::Info));
    assert_eq!(log.level_filter(), Ok(LogLevelFilter::Info));
    assert_eq!(log.access_path(), "/tmp/access.log");
    let off = LogConfig::new(AccessLogConfig::new("off".into(), "/tmp/x".into()));
    assert_eq!(off.level(), Err(ConfigError::UnknownLogLevel("off".into())));
    assert_eq!(off.level_filter(), Ok(LogLevelFilter::Off));
    let trace = LogConfig::new(AccessLogConfig::new("TRACE".into(), "/tmp/x".into()));
    assert_eq!(trace.level(), Ok(LogLevel::Trace));
}

#[test]
fn dns_resolver_names() {
    assert_eq!(DNSResolver::from_str("Local"), Some(DNSResolver::Local));
    assert_eq!(DNSResolver::from_str("REMOTE"), Some(DNSResolver::Remote));
    assert_eq!(DNSResolver::from_str("system"), None);
    let d = DnsConfig::default();
    assert_eq!(d.resolver, DNSResolver::Local);
    assert_eq!(d.server, None);
}

#[test]
fn inbound_accessors() {
    let socks = SocksInBoundConfig::new(1080, Some("u".into()), None);
    assert_eq!(socks.port(), 1080);
    assert_eq!(socks.uid(), Some("u"));
    assert_eq!(socks.pwd(), None);
    let tls = TlsServerConfig {
        crt_path: "localhost.crt".into(),
        key_path: "localhost.key".into(),
        domain_name: "localhost".into(),
    };
    let ethan = EthanInBoundConfig::new(10800, "ethan.wang".into(), "pass01!".into(), Some(tls.clone()));
    assert_eq!(ethan.port(), 10800);
    assert_eq!(ethan.uid(), "ethan.wang");
    assert_eq!(ethan.pwd(), "pass01!");
    assert_eq!(ethan.tls(), &Some(tls));
    assert_eq!(InBoundTypeConfig::Ethan(ethan).port(), 10800);
}

#[test]
fn factories_follow_the_configuration() {
    let socks = Arc::new(InBoundTypeConfig::Socks5(SocksInBoundConfig::new(1080, None, None)));
    match InBoundFactory::get(socks, Arc::new(DnsConfig::default())) {
        InBound::Socks5(s) => assert_eq!(s.config().port(), 1080),
        InBound::Ethan(_) => panic!("expected socks5"),
    }
    let direct = OutBoundTypeConfig::Direct(DirectOutputConfig::new("direct"));
    assert!(matches!(OutBoundFactory::get(&direct), OutBound::Direct(_)));
    assert_eq!(OutBoundFactory::get(&direct).kind(), OutBoundType::Direct);
}
