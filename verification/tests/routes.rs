use proxy_rs::dns_config::DNSResolver;
use proxy_rs::ethan_proto::DstType;
use proxy_rs::geoip::{asn_from_lookup, country_from_lookup, GeoipReader};
use proxy_rs::net::IpAddress;
use proxy_rs::route_config::{
    list_contains, match_cidr, match_domain, GeoInfo, RouteConfig, RouteManager, RuleType,
    UnknownRuleType,
};

fn no_geo() -> GeoInfo {
    GeoInfo { country: None, asn: None }
}

fn geo(country: &str, asn: &str) -> GeoInfo {
    GeoInfo { country: Some(country.to_string()), asn: Some(asn.to_string()) }
}

#[test]
fn routes_match() {
    let mut routes = Vec::new();
    routes.push(RouteConfig::new("*.google.com", "proxy_goole", RuleType::Domain));
    routes.push(RouteConfig::new("192.168.0.0/8", "proxy_cidr", RuleType::Cidr));
    routes.push(RouteConfig::new("169.254.0.0/16", "proxy_cidr", RuleType::Cidr));
    routes.push(RouteConfig::new("CN", "direct", RuleType::GeoipCountry));
    routes.push(RouteConfig::new("*.github.com", "proxy_github", RuleType::Domain));
    routes.push(RouteConfig::new("*", "direct", RuleType::Default));

    let manager = RouteManager::new(routes);

    let goole_dst = DstType::DomainName("www.google.com".into());
    let goole_dst_match = manager.get_match(&goole_dst, DNSResolver::Local, None, &no_geo());
    assert_eq!(goole_dst_match.to(), "proxy_goole");

    let ipv4_dst = DstType::Ipv4([192u8, 168, 5, 100]);
    let ipv4_dst_match = manager.get_match(&ipv4_dst, DNSResolver::Local, None, &no_geo());
    assert_eq!(ipv4_dst_match.to(), "proxy_cidr");

    let github_dst = DstType::DomainName("www.github.com".into());
    let github_dst_match = manager.get_match(&github_dst, DNSResolver::Local, None, &no_geo());
    assert_eq!(github_dst_match.to(), "proxy_github");

    // www.baidu.com resolved to an address that the GeoIP database places in CN.
    let bing_dst = DstType::DomainName("www.baidu.com".into());
    assert!(manager.needs_resolution(&bing_dst, DNSResolver::Local));
    let resolved = IpAddress::V4([110, 242, 68, 66]);
    let bing_dst_match =
        manager.get_match(&bing_dst, DNSResolver::Local, Some(resolved), &geo("CN", "AS4837"));
    assert_eq!(bing_dst_match.to(), "direct");
}

#[test]
fn unmatched_target_takes_the_default_route() {
    let manager = RouteManager::new(vec![
        RouteConfig::new("10.0.0.0/8", "direct", RuleType::Cidr),
        RouteConfig::new("*", "proxy", RuleType::Default),
    ]);
    let dst = DstType::Ipv4([8, 8, 8, 8]);
    assert_eq!(manager.get_match(&dst, DNSResolver::Local, None, &no_geo()).to(), "proxy");
    let dst = DstType::DomainName("example.org".into());
    assert!(!manager.needs_resolution(&dst, DNSResolver::Remote));
    assert_eq!(manager.get_match(&dst, DNSResolver::Remote, None, &no_geo()).to(), "proxy");
}

#[test]
fn manager_without_default_gets_one() {
    let manager = RouteManager::new(vec![RouteConfig::new("CN", "direct", RuleType::GeoipCountry)]);
    assert_eq!(manager.len(), 2);
    let dst = DstType::Ipv4([1, 1, 1, 1]);
    assert_eq!(manager.get_match(&dst, DNSResolver::Local, None, &geo("AU", "AS13335")).to(), "Direct");
    let parsed = RouteManager::from_parsed(vec![]);
    assert!(parsed.is_empty());
    assert_eq!(parsed.get_match(&dst, DNSResolver::Local, None, &no_geo()).to(), "Direct");
}

#[test]
fn normalizing_keeps_configured_default() {
    let a = RouteManager::new(vec![RouteConfig::new("*", "proxy", RuleType::Default)]);
    assert_eq!(a.len(), 1);
}

#[test]
fn rule_type_names() {
    assert_eq!(RuleType::from_str("CIDR"), Ok(RuleType::Cidr));
    assert_eq!(RuleType::from_str("GeoIP:country"), Ok(RuleType::GeoipCountry));
    assert_eq!(RuleType::from_str("geoip_asn"), Ok(RuleType::Geoipasn));
    assert_eq!(RuleType::from_str("Domain"), Ok(RuleType::Domain));
    assert_eq!(RuleType::from_str("default"), Ok(RuleType::Default));
    assert_eq!(RuleType::from_str("regex"), Err(UnknownRuleType("regex".to_string())));
}

#[test]
fn cidr_lists() {
    let rule = "127.0.0.0/8,10.0.0.0/8;172.16.0.0/12,192.168.0.0/16,169.254.0.0/16";
    assert!(match_cidr(&IpAddress::V4([172, 20, 1, 1]), rule));
    assert!(match_cidr(&IpAddress::V4([169, 254, 3, 4]), rule));
    assert!(!match_cidr(&IpAddress::V4([172, 32, 0, 1]), rule));
    assert!(!match_cidr(&IpAddress::V6([0; 16]), rule));
    // Entries that are no network are skipped.
    assert!(match_cidr(&IpAddress::V4([10, 1, 2, 3]), "bogus,10.0.0.0/8"));
    assert!(!match_cidr(&IpAddress::V4([11, 1, 2, 3]), "bogus,10.0.0.0/8"));
    assert!(match_cidr(&IpAddress::V4([10, 1, 1, 1]), "10.0.0.0/8,bogus"));
    let mut v6 = [0u8; 16];
    v6[0] = 0xfe;
    v6[1] = 0x80;
    v6[15] = 1;
    assert!(match_cidr(&IpAddress::V6(v6), "fe80::/10"));
    assert!(match_cidr(&IpAddress::V4([1, 2, 3, 4]), "0.0.0.0/0"));
    assert!(match_cidr(&IpAddress::V4([1, 2, 3, 4]), "1.2.3.4"));
    assert!(!match_cidr(&IpAddress::V4([1, 2, 3, 5]), "1.2.3.4"));
}

#[test]
fn country_and_asn_lists() {
    assert!(list_contains("CN, US", "us"));
    assert!(list_contains("AS4134;AS4837", " as4837 "));
    assert!(!list_contains("CN", "HK"));
    assert!(list_contains("CN,", ""));
    let route = RouteConfig::new("CN", "direct", RuleType::GeoipCountry);
    assert!(route.is_match("1.2.3.4", Some(IpAddress::V4([1, 2, 3, 4])), &geo("CN", "AS1")));
    assert!(!route.is_match("example.com", None, &geo("CN", "AS1")));
    assert!(!route.is_match("1.2.3.4", Some(IpAddress::V4([1, 2, 3, 4])), &no_geo()));
}

#[test]
fn domain_patterns() {
    assert!(match_domain("www.google.com", "*.google.com"));
    assert!(!match_domain("google.com", "*.google.com"));
    assert!(match_domain("mail.google.com", "**.google.com"));
    assert!(match_domain("google.com", "google.com"));
    assert!(!match_domain("www.google.com", "google.com"));
    assert!(match_domain("anything", "*"));
}

#[test]
fn first_matching_route_wins() {
    let manager = RouteManager::new(vec![
        RouteConfig::new("*", "fallback", RuleType::Default),
        RouteConfig::new("8.8.0.0/16", "first", RuleType::Cidr),
        RouteConfig::new("US", "second", RuleType::GeoipCountry),
        RouteConfig::new("8.0.0.0/8", "third", RuleType::Cidr),
    ]);
    let dst = DstType::Ipv4([8, 8, 8, 8]);
    assert_eq!(manager.get_match(&dst, DNSResolver::Local, None, &geo("US", "AS15169")).to(), "first");
    let dst = DstType::Ipv4([8, 1, 1, 1]);
    assert_eq!(manager.get_match(&dst, DNSResolver::Local, None, &geo("US", "AS15169")).to(), "second");
    assert_eq!(manager.get_match(&dst, DNSResolver::Local, None, &no_geo()).to(), "third");
}

#[test]
fn first_default_route_takes_unmatched_targets() {
    let manager = RouteManager::from_parsed(vec![
        RouteConfig::new("10.0.0.0/8", "lan", RuleType::Cidr),
        RouteConfig::new("*", "one", RuleType::Default),
        RouteConfig::new("*", "two", RuleType::Default),
    ]);
    let dst = DstType::Ipv6([0x20, 0x01, 0x0d, 0xb8, 0, 0, 0, 0, 0, 0, 0, 0, 0, 0, 0, 1]);
    assert_eq!(manager.get_match(&dst, DNSResolver::Local, None, &no_geo()).to(), "one");
    let without_default =
        RouteManager::from_parsed(vec![RouteConfig::new("10.0.0.0/8", "lan", RuleType::Cidr)]);
    assert_eq!(without_default.get_match(&dst, DNSResolver::Local, None, &no_geo()).to(), "Direct");
}

#[test]
fn geoip_lookup_results() {
    assert_eq!(country_from_lookup(Some(Some("CN".to_string()))), Some("CN".to_string()));
    assert_eq!(country_from_lookup(Some(None)), Some(String::new()));
    assert_eq!(country_from_lookup(None), None);
    assert_eq!(asn_from_lookup(Some(Some(4134))), Some("AS4134".to_string()));
    assert_eq!(asn_from_lookup(Some(Some(0))), Some("AS0".to_string()));
    assert_eq!(asn_from_lookup(Some(None)), Some(String::new()));
    assert_eq!(asn_from_lookup(None), None);
    // Bytes that are no database do not open.
    assert!(GeoipReader::open(vec![1, 2, 3], Vec::new()).is_none());
}

#[test]
fn geo_address_only_with_geo_routes() {
    let plain = RouteManager::new(vec![RouteConfig::new("10.0.0.0/8", "lan", RuleType::Cidr)]);
    let geo_routes = RouteManager::new(vec![RouteConfig::new("CN", "direct", RuleType::GeoipCountry)]);
    let v4 = DstType::Ipv4([1, 2, 3, 4]);
    let name = DstType::DomainName("example.org".into());
    let resolved = Some(IpAddress::V4([5, 6, 7, 8]));
    assert_eq!(plain.geo_address(&v4, None), None);
    assert_eq!(geo_routes.geo_address(&v4, resolved), Some(IpAddress::V4([1, 2, 3, 4])));
    assert_eq!(geo_routes.geo_address(&name, resolved), resolved);
    assert_eq!(geo_routes.geo_address(&name, None), None);
}
