//! Routing: which outbound a target goes to.
//!
//! A route names an outbound (`to`) and a rule of one of five types: a list of
//! networks, a list of countries, a list of autonomous systems, a domain
//! pattern, or the default. Lists are separated by `,` or `;`.
use vstd::prelude::*;

use crate::dns_config::DNSResolver;
use crate::ethan_proto::DstType;
use crate::net::{contains, network_contains, network_parse, parse_network, IpAddress};
use crate::text::{
    chars_eq, chars_eq_ignore_ascii_case, chars_of, eq_ignore_ascii_case, lemma_split_on_concat,
    lemma_split_on_single, lowercase, split_chars, split_on, string_from_chars, texts_of,
    to_lowercase, trim, trim_chars,
};

verus! {

/// The type of a route's rule.
#[derive(Debug, PartialEq, Eq, Structural, Clone, Copy)]
pub enum RuleType {
    Cidr,
    Geoipasn,
    GeoipCountry,
    Domain,
    Default,
}

/// The rule type that a lowercased name names.
pub open spec fn rule_type_named(l: Seq<char>) -> Option<RuleType> {
    if l == seq!['d', 'o', 'm', 'a', 'i', 'n'] {
        Some(RuleType::Domain)
    } else if l == seq!['c', 'i', 'd', 'r'] {
        Some(RuleType::Cidr)
    } else if l == seq!['g', 'e', 'o', 'i', 'p', ':', 'c', 'o', 'u', 'n', 't', 'r', 'y'] || l
        == seq!['g', 'e', 'o', 'i', 'p', '_', 'c', 'o', 'u', 'n', 't', 'r', 'y'] {
        Some(RuleType::GeoipCountry)
    } else if l == seq!['g', 'e', 'o', 'i', 'p', ':', 'a', 's', 'n'] || l == seq![
        'g',
        'e',
        'o',
        'i',
        'p',
        '_',
        'a',
        's',
        'n',
    ] {
        Some(RuleType::Geoipasn)
    } else if l == seq!['d', 'e', 'f', 'a', 'u', 'l', 't'] {
        Some(RuleType::Default)
    } else {
        None
    }
}

/// A rule type name that is none of the known ones.
#[derive(Debug, PartialEq, Eq)]
pub struct UnknownRuleType(pub String);

impl RuleType {
    /// The rule type named by `s`, in any case: "domain", "cidr",
    /// "geoip:country" or "geoip_country", "geoip:asn" or "geoip_asn", "default".
    pub fn from_str(s: &str) -> (r: Result<RuleType, UnknownRuleType>)
        ensures
            r matches Ok(t) ==> rule_type_named(lowercase(s@)) == Some(t),
            r matches Err(e) ==> rule_type_named(lowercase(s@)) is None && e.0@ == s@,
    {
        let lower = to_lowercase(s);
        let l = chars_of(lower.as_str());
        let domain = ['d', 'o', 'm', 'a', 'i', 'n'];
        let cidr = ['c', 'i', 'd', 'r'];
        let country1 = ['g', 'e', 'o', 'i', 'p', ':', 'c', 'o', 'u', 'n', 't', 'r', 'y'];
        let country2 = ['g', 'e', 'o', 'i', 'p', '_', 'c', 'o', 'u', 'n', 't', 'r', 'y'];
        let asn1 = ['g', 'e', 'o', 'i', 'p', ':', 'a', 's', 'n'];
        let asn2 = ['g', 'e', 'o', 'i', 'p', '_', 'a', 's', 'n'];
        let default = ['d', 'e', 'f', 'a', 'u', 'l', 't'];
        assert(domain@ =~= seq!['d', 'o', 'm', 'a', 'i', 'n']);
        assert(cidr@ =~= seq!['c', 'i', 'd', 'r']);
        assert(country1@ =~= seq!['g', 'e', 'o', 'i', 'p', ':', 'c', 'o', 'u', 'n', 't', 'r', 'y']);
        assert(country2@ =~= seq!['g', 'e', 'o', 'i', 'p', '_', 'c', 'o', 'u', 'n', 't', 'r', 'y']);
        assert(asn1@ =~= seq!['g', 'e', 'o', 'i', 'p', ':', 'a', 's', 'n']);
        assert(asn2@ =~= seq!['g', 'e', 'o', 'i', 'p', '_', 'a', 's', 'n']);
        assert(default@ =~= seq!['d', 'e', 'f', 'a', 'u', 'l', 't']);
        if chars_eq(l.as_slice(), domain.as_slice()) {
            Ok(RuleType::Domain)
        } else if chars_eq(l.as_slice(), cidr.as_slice()) {
            Ok(RuleType::Cidr)
        } else if chars_eq(l.as_slice(), country1.as_slice()) || chars_eq(
            l.as_slice(),
            country2.as_slice(),
        ) {
            Ok(RuleType::GeoipCountry)
        } else if chars_eq(l.as_slice(), asn1.as_slice()) || chars_eq(
            l.as_slice(),
            asn2.as_slice(),
        ) {
            Ok(RuleType::Geoipasn)
        } else if chars_eq(l.as_slice(), default.as_slice()) {
            Ok(RuleType::Default)
        } else {
            Err(UnknownRuleType(s.to_string()))
        }
    }
}

/// What the GeoIP databases say of an address: its country code and its
/// autonomous system ("AS" and the number); `None` where the lookup failed.
#[derive(Debug, Clone, PartialEq, Eq)]
pub struct GeoInfo {
    pub country: Option<String>,
    pub asn: Option<String>,
}

/// GeoIP facts as plain values.
pub struct GeoView {
    pub country: Option<Seq<char>>,
    pub asn: Option<Seq<char>>,
}

pub open spec fn opt_text(o: Option<String>) -> Option<Seq<char>> {
    match o {
        Some(s) => Some(s@),
        None => None,
    }
}

impl View for GeoInfo {
    type V = GeoView;

    open spec fn view(&self) -> GeoView {
        GeoView { country: opt_text(self.country), asn: opt_text(self.asn) }
    }
}

/// The separators of a list in a rule.
pub open spec fn list_separators() -> Seq<char> {
    seq![',', ';']
}

/// The entries of a list in a rule.
pub open spec fn list_entries(rule: Seq<char>) -> Seq<Seq<char>> {
    split_on(rule, list_separators())
}

/// Some entry of the list, trimmed, equals the trimmed value without ASCII case.
pub open spec fn list_has(rule: Seq<char>, value: Seq<char>) -> bool {
    exists|i: int|
        0 <= i < list_entries(rule).len() && eq_ignore_ascii_case(
            trim(#[trigger] list_entries(rule)[i]),
            trim(value),
        )
}

/// A list of one entry (no `,` or `;` in it) holds a value exactly when the
/// entry, trimmed, equals the trimmed value without ASCII case.
pub proof fn law_list_single_entry(e: Seq<char>, value: Seq<char>)
    requires
        forall|i: int| 0 <= i < e.len() ==> e[i] != ',' && e[i] != ';',
    ensures
        list_has(e, value) == eq_ignore_ascii_case(trim(e), trim(value)),
{
    assert forall|i: int| 0 <= i < e.len() implies !list_separators().contains(#[trigger] e[i]) by {
        if list_separators().contains(e[i]) {
            let k = choose|k: int| 0 <= k < 2 && list_separators()[k] == e[i];
        }
    }
    lemma_split_on_single(e, list_separators());
    assert(list_entries(e) == seq![e]);
    if eq_ignore_ascii_case(trim(e), trim(value)) {
        assert(list_entries(e)[0] == e);
    }
}

/// A list joined from two lists at a `,` or `;` holds a value exactly when
/// one of the two does: every entry counts, wherever it stands.
pub proof fn law_list_joined(a: Seq<char>, sep: char, b: Seq<char>, value: Seq<char>)
    requires
        sep == ',' || sep == ';',
    ensures
        list_has(a + seq![sep] + b, value) == (list_has(a, value) || list_has(b, value)),
{
    assert(list_separators().contains(sep)) by {
        if sep == ',' {
            assert(list_separators()[0] == sep);
        } else {
            assert(list_separators()[1] == sep);
        }
    }
    lemma_split_on_concat(a, sep, b, list_separators());
    let ea = list_entries(a);
    let eb = list_entries(b);
    let e = list_entries(a + seq![sep] + b);
    assert(e == ea + eb);
    if list_has(a, value) {
        let i = choose|i: int|
            0 <= i < ea.len() && eq_ignore_ascii_case(trim(#[trigger] ea[i]), trim(value));
        assert(e[i] == ea[i]);
    }
    if list_has(b, value) {
        let i = choose|i: int|
            0 <= i < eb.len() && eq_ignore_ascii_case(trim(#[trigger] eb[i]), trim(value));
        assert(e[ea.len() + i] == eb[i]);
    }
    if list_has(a + seq![sep] + b, value) {
        let i = choose|i: int|
            0 <= i < e.len() && eq_ignore_ascii_case(trim(#[trigger] e[i]), trim(value));
        if i < ea.len() {
            assert(ea[i] == e[i]);
        } else {
            assert(eb[i - ea.len()] == e[i]);
        }
    }
}

/// Whether network entry `e` is a network that holds the address.
pub open spec fn entry_holds(e: Seq<char>, ip: IpAddress) -> bool {
    match network_parse(e) {
        Some(n) => network_contains(n, ip),
        None => false,
    }
}

/// Some entry is a network that holds the address; entries that are no
/// network are skipped.
pub open spec fn networks_hold(entries: Seq<Seq<char>>, ip: IpAddress) -> bool {
    exists|i: int| 0 <= i < entries.len() && entry_holds(#[trigger] entries[i], ip)
}

/// `s` without its `*` characters.
pub open spec fn remove_stars(s: Seq<char>) -> Seq<char>
    decreases s.len(),
{
    if s.len() == 0 {
        s
    } else if s.last() == '*' {
        remove_stars(s.drop_last())
    } else {
        remove_stars(s.drop_last()).push(s.last())
    }
}

pub open spec fn ends_with(s: Seq<char>, suffix: Seq<char>) -> bool {
    s.len() >= suffix.len() && s.skip(s.len() - suffix.len()) == suffix
}

/// A domain pattern starting with `*` matches the names that end with the
/// pattern without its stars; any other pattern matches only itself.
pub open spec fn domain_matches(target: Seq<char>, rule: Seq<char>) -> bool {
    if rule.len() > 0 && rule[0] == '*' {
        ends_with(target, remove_stars(rule))
    } else {
        target == rule
    }
}

/// A GeoIP rule type: country or autonomous system.
pub open spec fn is_geo_rule(t: RuleType) -> bool {
    t == RuleType::GeoipCountry || t == RuleType::Geoipasn
}

/// Some route is a GeoIP route.
pub open spec fn has_geo_route(rs: Seq<RouteView>) -> bool {
    exists|j: int| 0 <= j < rs.len() && is_geo_rule((#[trigger] rs[j]).rule_type)
}

/// The address that the address rules are matched against: the target's own
/// address, or for a domain name the address it resolved to.
pub open spec fn matched_address(dst: DstType, resolved: Option<IpAddress>) -> Option<IpAddress> {
    match dst {
        DstType::Ipv4(a) => Some(IpAddress::V4(a)),
        DstType::Ipv6(a) => Some(IpAddress::V6(a)),
        DstType::DomainName(_) => resolved,
    }
}

/// A route as plain values.
pub struct RouteView {
    pub rule: Seq<char>,
    pub to: Seq<char>,
    pub rule_type: RuleType,
}

/// Whether a route's rule matches the target `s`, which is the address `ip`
/// when `s` is the text of an IP address, with GeoIP facts `geo` of that
/// address.
pub open spec fn rule_matches(r: RouteView, s: Seq<char>, ip: Option<IpAddress>, geo: GeoView) -> bool {
    match r.rule_type {
        RuleType::Default => true,
        RuleType::Cidr => ip matches Some(a) && networks_hold(list_entries(r.rule), a),
        RuleType::Domain => domain_matches(s, r.rule),
        RuleType::GeoipCountry => ip is Some && (geo.country matches Some(c) && list_has(r.rule, c)),
        RuleType::Geoipasn => ip is Some && (geo.asn matches Some(a) && list_has(r.rule, a)),
    }
}

/// A route whose rule is about addresses and matches the address `ip`.
pub open spec fn address_rule_selects(r: RouteView, ip: IpAddress, geo: GeoView) -> bool {
    match r.rule_type {
        RuleType::Cidr => networks_hold(list_entries(r.rule), ip),
        RuleType::GeoipCountry => geo.country matches Some(c) && list_has(r.rule, c),
        RuleType::Geoipasn => geo.asn matches Some(a) && list_has(r.rule, a),
        _ => false,
    }
}

/// A domain route whose pattern matches `name`.
pub open spec fn domain_rule_selects(r: RouteView, name: Seq<char>) -> bool {
    r.rule_type == RuleType::Domain && domain_matches(name, r.rule)
}

/// The first index from `i` on whose route `sel` selects.
pub open spec fn first_from(routes: Seq<RouteView>, i: int, sel: spec_fn(RouteView) -> bool) -> Option<
    int,
>
    decreases routes.len() - i,
{
    if i < 0 || i >= routes.len() {
        None
    } else if sel(routes[i]) {
        Some(i)
    } else {
        first_from(routes, i + 1, sel)
    }
}

proof fn lemma_first_from_range(routes: Seq<RouteView>, i: int, sel: spec_fn(RouteView) -> bool)
    requires
        0 <= i,
    ensures
        first_from(routes, i, sel) matches Some(k) ==> i <= k < routes.len() && sel(routes[k]),
        first_from(routes, i, sel) is None ==> forall|k: int| i <= k < routes.len() ==> !sel(#[trigger] routes[k]),
    decreases routes.len() - i,
{
    if i < routes.len() && !sel(routes[i]) {
        lemma_first_from_range(routes, i + 1, sel);
    }
}

/// A route: a rule, its type, and the name of the outbound it leads to.
#[derive(Debug, PartialEq, Eq, Clone)]
pub struct RouteConfig {
    rule: String,
    to: String,
    rule_type: RuleType,
}

impl View for RouteConfig {
    type V = RouteView;

    closed spec fn view(&self) -> RouteView {
        RouteView { rule: self.rule@, to: self.to@, rule_type: self.rule_type }
    }
}

/// Whether some network of the list holds the address; entries that are no
/// network are skipped.
pub fn match_cidr(ip: &IpAddress, rule: &str) -> (r: bool)
    ensures
        r == networks_hold(list_entries(rule@), *ip),
{
    let chars = chars_of(rule);
    let seps = [',', ';'];
    assert(seps@ =~= list_separators());
    let entries = split_chars(chars.as_slice(), seps.as_slice());
    let ghost es = texts_of(entries@);
    let mut k: usize = 0;
    while k < entries.len()
        invariant
            k <= entries@.len(),
            es == texts_of(entries@),
            es == list_entries(rule@),
            es.len() == entries@.len(),
            forall|j: int| 0 <= j < k ==> !entry_holds(#[trigger] es[j], *ip),
        decreases entries@.len() - k,
    {
        let text = string_from_chars(entries[k].as_slice());
        assert(es[k as int] == entries@[k as int]@);
        match parse_network(text.as_str()) {
            None => {},
            Some(n) => {
                if contains(&n, ip) {
                    assert(entry_holds(es[k as int], *ip));
                    return true;
                }
            },
        }
        k = k + 1;
    }
    false
}

/// Whether some entry of the list, trimmed, equals the trimmed value without
/// ASCII case.
pub fn list_contains(rule: &str, value: &str) -> (r: bool)
    ensures
        r == list_has(rule@, value@),
{
    let chars = chars_of(rule);
    let seps = [',', ';'];
    assert(seps@ =~= list_separators());
    let entries = split_chars(chars.as_slice(), seps.as_slice());
    let ghost es = texts_of(entries@);
    let vchars = chars_of(value);
    let wanted = trim_chars(vchars.as_slice());
    let mut k: usize = 0;
    while k < entries.len()
        invariant
            k <= entries@.len(),
            es == texts_of(entries@),
            es == list_entries(rule@),
            wanted@ == trim(value@),
            forall|j: int| 0 <= j < k ==> !eq_ignore_ascii_case(trim(#[trigger] es[j]), trim(value@)),
        decreases entries@.len() - k,
    {
        let entry = trim_chars(entries[k].as_slice());
        if chars_eq_ignore_ascii_case(entry.as_slice(), wanted.as_slice()) {
            assert(0 <= k < list_entries(rule@).len() && eq_ignore_ascii_case(
                trim(list_entries(rule@)[k as int]),
                trim(value@),
            ));
            return true;
        }
        k = k + 1;
    }
    false
}

/// `s` without its `*` characters.
fn without_stars(s: &[char]) -> (r: Vec<char>)
    ensures
        r@ == remove_stars(s@),
{
    let mut r: Vec<char> = Vec::new();
    let mut i: usize = 0;
    while i < s.len()
        invariant
            i <= s@.len(),
            r@ == remove_stars(s@.take(i as int)),
        decreases s@.len() - i,
    {
        assert(s@.take(i + 1).drop_last() =~= s@.take(i as int));
        if s[i] != '*' {
            r.push(s[i]);
        }
        i = i + 1;
    }
    assert(s@.take(s@.len() as int) =~= s@);
    r
}

/// Whether the domain pattern `rule` matches `target`.
pub fn match_domain(target: &str, rule: &str) -> (r: bool)
    ensures
        r == domain_matches(target@, rule@),
{
    let t = chars_of(target);
    let p = chars_of(rule);
    if p.len() > 0 && p[0] == '*' {
        let suffix = without_stars(p.as_slice());
        if t.len() < suffix.len() {
            return false;
        }
        let start = t.len() - suffix.len();
        let mut i: usize = 0;
        while i < suffix.len()
            invariant
                t@ == target@,
                p@ == rule@,
                p@.len() > 0 && p@[0] == '*',
                suffix@ == remove_stars(p@),
                start == t@.len() - suffix@.len(),
                start + suffix@.len() == t@.len(),
                t@.len() <= usize::MAX,
                i <= suffix@.len(),
                forall|j: int| 0 <= j < i ==> t@[start + j] == suffix@[j],
            decreases suffix@.len() - i,
        {
            if t[start + i] != suffix[i] {
                assert(t@.skip(start as int)[i as int] != suffix@[i as int]);
                return false;
            }
            i = i + 1;
        }
        assert(t@.skip(start as int) =~= suffix@);
        true
    } else {
        chars_eq(t.as_slice(), p.as_slice())
    }
}

impl RouteConfig {
    pub fn new(rule: &str, to: &str, route_type: RuleType) -> (r: Self)
        ensures
            r@ == (RouteView { rule: rule@, to: to@, rule_type: route_type }),
    {
        RouteConfig { rule: rule.to_string(), to: to.to_string(), rule_type: route_type }
    }

    /// The rule's text.
    pub fn rule(&self) -> (r: &str)
        ensures
            r@ == self@.rule,
    {
        self.rule.as_str()
    }

    /// The name of the outbound that this route leads to.
    pub fn to(&self) -> (r: &str)
        ensures
            r@ == self@.to,
    {
        self.to.as_str()
    }

    pub fn rule_type(&self) -> (r: &RuleType)
        ensures
            *r == self@.rule_type,
    {
        &self.rule_type
    }

    /// Whether this route's rule matches the target `s`. `ip` is `s` read as an
    /// IP address (`None` when it is none), and `geo` the GeoIP facts of that
    /// address: the network, country and autonomous system rules match only
    /// addresses.
    pub fn is_match(&self, s: &str, ip: Option<IpAddress>, geo: &GeoInfo) -> (r: bool)
        ensures
            r == rule_matches(self@, s@, ip, geo@),
    {
        match self.rule_type {
            RuleType::Default => true,
            RuleType::Cidr => match ip {
                Some(a) => match_cidr(&a, self.rule.as_str()),
                None => false,
            },
            RuleType::Domain => match_domain(s, self.rule.as_str()),
            RuleType::GeoipCountry => match (ip, &geo.country) {
                (Some(_), Some(c)) => list_contains(self.rule.as_str(), c.as_str()),
                _ => false,
            },
            RuleType::Geoipasn => match (ip, &geo.asn) {
                (Some(_), Some(a)) => list_contains(self.rule.as_str(), a.as_str()),
                _ => false,
            },
        }
    }

    /// Whether this route's rule is about addresses and matches `ip`.
    pub fn is_match_address(&self, ip: &IpAddress, geo: &GeoInfo) -> (r: bool)
        ensures
            r == address_rule_selects(self@, *ip, geo@),
    {
        match self.rule_type {
            RuleType::Cidr => match_cidr(ip, self.rule.as_str()),
            RuleType::GeoipCountry => match &geo.country {
                Some(c) => list_contains(self.rule.as_str(), c.as_str()),
                None => false,
            },
            RuleType::Geoipasn => match &geo.asn {
                Some(a) => list_contains(self.rule.as_str(), a.as_str()),
                None => false,
            },
            _ => false,
        }
    }
}


/// Selects the routes whose rule is about addresses and matches `ip`.
pub open spec fn address_selector(ip: IpAddress, geo: GeoView) -> spec_fn(RouteView) -> bool {
    |r: RouteView| address_rule_selects(r, ip, geo)
}

/// Selects the domain routes whose pattern matches `name`.
pub open spec fn domain_selector(name: Seq<char>) -> spec_fn(RouteView) -> bool {
    |r: RouteView| domain_rule_selects(r, name)
}

/// Selects the default routes.
pub open spec fn default_selector() -> spec_fn(RouteView) -> bool {
    |r: RouteView| r.rule_type == RuleType::Default
}

/// The route that stands in when no route is configured as the default:
/// rule `*` to the outbound named "Direct".
pub open spec fn builtin_default() -> RouteView {
    RouteView { rule: seq!['*'], to: seq!['D', 'i', 'r', 'e', 'c', 't'], rule_type: RuleType::Default }
}

pub open spec fn routes_of(v: Seq<RouteConfig>) -> Seq<RouteView> {
    v.map_values(|r: RouteConfig| r@)
}

/// The routes with a default route appended when none is among them.
pub open spec fn normalized(rs: Seq<RouteView>) -> Seq<RouteView> {
    if exists|i: int| 0 <= i < rs.len() && (#[trigger] rs[i]).rule_type == RuleType::Default {
        rs
    } else {
        rs.push(builtin_default())
    }
}

/// The index of the route that a rule other than the default selects for a
/// target: for an address, the first address route that matches it; for a
/// domain name, the first domain route that matches it, else, when names are
/// resolved here and the name resolved to `resolved`, the first address route
/// that matches that address.
pub open spec fn selected_route(
    rs: Seq<RouteView>,
    dst: DstType,
    resolver: DNSResolver,
    resolved: Option<IpAddress>,
    geo: GeoView,
) -> Option<int> {
    match dst {
        DstType::Ipv4(a) => first_from(rs, 0, address_selector(IpAddress::V4(a), geo)),
        DstType::Ipv6(a) => first_from(rs, 0, address_selector(IpAddress::V6(a), geo)),
        DstType::DomainName(n) => match first_from(rs, 0, domain_selector(n@)) {
            Some(k) => Some(k),
            None => if resolver == DNSResolver::Local && resolved is Some {
                first_from(rs, 0, address_selector(resolved.unwrap(), geo))
            } else {
                None
            },
        },
    }
}

/// The route for a target: the selected route, else the first default route,
/// else the built-in default.
pub open spec fn route_for(
    rs: Seq<RouteView>,
    dst: DstType,
    resolver: DNSResolver,
    resolved: Option<IpAddress>,
    geo: GeoView,
) -> RouteView {
    match selected_route(rs, dst, resolver, resolved, geo) {
        Some(k) => rs[k],
        None => match first_from(rs, 0, default_selector()) {
            Some(k) => rs[k],
            None => builtin_default(),
        },
    }
}

/// The configured routes, in order of precedence.
#[derive(Debug, PartialEq, Eq)]
pub struct RouteManager {
    routes: Vec<RouteConfig>,
    fallback: RouteConfig,
}

/// The routes of a manager as plain values, and the route that stands in
/// when no route is a default route.
pub struct ManagerView {
    pub routes: Seq<RouteView>,
    pub fallback: RouteView,
}

impl View for RouteManager {
    type V = ManagerView;

    closed spec fn view(&self) -> ManagerView {
        ManagerView { routes: routes_of(self.routes@), fallback: self.fallback@ }
    }
}

impl RouteManager {
    /// The stand-in route is the built-in default.
    pub open spec fn wf(&self) -> bool {
        self@.fallback == builtin_default()
    }

    fn builtin_route() -> (r: RouteConfig)
        ensures
            r@ == builtin_default(),
    {
        proof {
            reveal_strlit("*");
            reveal_strlit("Direct");
            assert("*"@ =~= seq!['*']);
            assert("Direct"@ =~= seq!['D', 'i', 'r', 'e', 'c', 't']);
        }
        RouteConfig::new("*", "Direct", RuleType::Default)
    }

    /// The given routes, with the built-in default appended when none of them
    /// is a default route.
    pub fn new(routes: Vec<RouteConfig>) -> (r: Self)
        ensures
            r.wf(),
            r@.routes == normalized(routes_of(routes@)),
    {
        let mut s = RouteManager { routes, fallback: Self::builtin_route() };
        s.normalize();
        s
    }

    /// The given routes as they are, as read from a configuration file.
    pub fn from_parsed(routes: Vec<RouteConfig>) -> (r: Self)
        ensures
            r.wf(),
            r@.routes == routes_of(routes@),
    {
        RouteManager { routes, fallback: Self::builtin_route() }
    }

    /// Appends the built-in default route when no route is a default route.
    fn normalize(&mut self)
        ensures
            final(self)@.routes == normalized(old(self)@.routes),
            final(self)@.fallback == old(self)@.fallback,
    {
        let ghost rs = self@.routes;
        proof {
            lemma_first_from_range(rs, 0, default_selector());
        }
        if self.get_default().is_none() {
            let d = Self::builtin_route();
            self.routes.push(d);
            assert(routes_of(self.routes@) =~= rs.push(builtin_default()));
            assert(!exists|i: int| 0 <= i < rs.len() && (#[trigger] rs[i]).rule_type == RuleType::Default) by {
                assert forall|i: int| 0 <= i < rs.len() implies (#[trigger] rs[i]).rule_type != RuleType::Default by {
                    assert(!default_selector()(rs[i]));
                }
            }
        } else {
            let ghost k = first_from(rs, 0, default_selector()).unwrap();
            assert(default_selector()(rs[k]));
            assert(rs[k].rule_type == RuleType::Default);
        }
    }

    /// The configured routes, in order.
    pub fn routes(&self) -> (r: &[RouteConfig])
        ensures
            routes_of(r@) == self@.routes,
    {
        self.routes.as_slice()
    }

    pub fn is_empty(&self) -> (r: bool)
        ensures
            r == (self@.routes.len() == 0),
    {
        self.routes.len() == 0
    }

    pub fn len(&self) -> (r: usize)
        ensures
            r == self@.routes.len(),
    {
        self.routes.len()
    }

    /// The first route whose rule is about addresses and matches `ip`, whose
    /// GeoIP facts are `geo`.
    pub fn get_match_ip(&self, ip: &IpAddress, geo: &GeoInfo) -> (r: Option<&RouteConfig>)
        ensures
            match first_from(self@.routes, 0, address_selector(*ip, geo@)) {
                Some(k) => r matches Some(c) && c@ == self@.routes[k],
                None => r is None,
            },
    {
        let ghost rs = self@.routes;
        let ghost sel = address_selector(*ip, geo@);
        let mut i: usize = 0;
        while i < self.routes.len()
            invariant
                i <= self.routes@.len(),
                rs == routes_of(self.routes@),
                sel == address_selector(*ip, geo@),
                first_from(rs, 0, sel) == first_from(rs, i as int, sel),
            decreases self.routes@.len() - i,
        {
            if self.routes[i].is_match_address(ip, geo) {
                return Some(&self.routes[i]);
            }
            i = i + 1;
        }
        None
    }

    /// The first domain route whose pattern matches `name`.
    pub fn get_match_domain_name(&self, name: &str) -> (r: Option<&RouteConfig>)
        ensures
            match first_from(self@.routes, 0, domain_selector(name@)) {
                Some(k) => r matches Some(c) && c@ == self@.routes[k],
                None => r is None,
            },
    {
        let ghost rs = self@.routes;
        let ghost sel = domain_selector(name@);
        let mut i: usize = 0;
        while i < self.routes.len()
            invariant
                i <= self.routes@.len(),
                rs == routes_of(self.routes@),
                sel == domain_selector(name@),
                first_from(rs, 0, sel) == first_from(rs, i as int, sel),
            decreases self.routes@.len() - i,
        {
            let route = &self.routes[i];
            if route.rule_type == RuleType::Domain && match_domain(name, route.rule.as_str()) {
                return Some(route);
            }
            i = i + 1;
        }
        None
    }

    /// The first default route.
    fn get_default(&self) -> (r: Option<&RouteConfig>)
        ensures
            match first_from(self@.routes, 0, default_selector()) {
                Some(k) => r matches Some(c) && c@ == self@.routes[k],
                None => r is None,
            },
    {
        let ghost rs = self@.routes;
        let mut i: usize = 0;
        while i < self.routes.len()
            invariant
                i <= self.routes@.len(),
                rs == routes_of(self.routes@),
                first_from(rs, 0, default_selector()) == first_from(rs, i as int, default_selector()),
            decreases self.routes@.len() - i,
        {
            if self.routes[i].rule_type == RuleType::Default {
                return Some(&self.routes[i]);
            }
            i = i + 1;
        }
        None
    }

    /// The address whose GeoIP facts matching needs: the target's own address,
    /// or the address its domain name resolved to; none when no route is a
    /// GeoIP route, so that nothing is looked up.
    pub fn geo_address(&self, dst: &DstType, resolved: Option<IpAddress>) -> (r: Option<IpAddress>)
        ensures
            r == (if has_geo_route(self@.routes) {
                matched_address(*dst, resolved)
            } else {
                None
            }),
    {
        let mut i: usize = 0;
        let mut found = false;
        while i < self.routes.len()
            invariant
                i <= self.routes@.len(),
                routes_of(self.routes@) == self@.routes,
                found == exists|j: int| 0 <= j < i && is_geo_rule((#[trigger] self@.routes[j]).rule_type),
            decreases self.routes@.len() - i,
        {
            let t = self.routes[i].rule_type;
            assert(self@.routes[i as int] == self.routes@[i as int]@);
            if t == RuleType::GeoipCountry || t == RuleType::Geoipasn {
                found = true;
            }
            i = i + 1;
        }
        if !found {
            return None;
        }
        match dst {
            DstType::Ipv4(a) => Some(IpAddress::V4(*a)),
            DstType::Ipv6(a) => Some(IpAddress::V6(*a)),
            DstType::DomainName(_) => resolved,
        }
    }

    /// Whether matching `dst` needs the address that its domain name resolves
    /// to: the target is a domain name that no domain route matches and names
    /// are resolved here.
    pub fn needs_resolution(&self, dst: &DstType, resolver: DNSResolver) -> (r: bool)
        ensures
            r == (dst is DomainName && resolver == DNSResolver::Local && first_from(
                self@.routes,
                0,
                domain_selector(dst->DomainName_0@),
            ) is None),
    {
        match dst {
            DstType::DomainName(name) => resolver == DNSResolver::Local
                && self.get_match_domain_name(name.as_str()).is_none(),
            _ => false,
        }
    }

    /// The route for the target `dst`. `resolved` is the address that a domain
    /// name resolved to, when it was resolved, and `geo` the GeoIP facts of
    /// the address that is matched (the target's own, or the resolved one).
    /// When no rule other than the default selects a route, the first default
    /// route is taken, and the built-in default when there is none.
    pub fn get_match(
        &self,
        dst: &DstType,
        resolver: DNSResolver,
        resolved: Option<IpAddress>,
        geo: &GeoInfo,
    ) -> (r: &RouteConfig)
        requires
            self.wf(),
        ensures
            r@ == route_for(self@.routes, *dst, resolver, resolved, geo@),
    {
        let found = match dst {
            DstType::Ipv4(a) => self.get_match_ip(&IpAddress::V4(*a), geo),
            DstType::Ipv6(a) => self.get_match_ip(&IpAddress::V6(*a), geo),
            DstType::DomainName(name) => match self.get_match_domain_name(name.as_str()) {
                Some(route) => Some(route),
                None => match (resolver, resolved) {
                    (DNSResolver::Local, Some(ip)) => self.get_match_ip(&ip, geo),
                    _ => None,
                },
            },
        };
        match found {
            Some(route) => route,
            None => match self.get_default() {
                Some(route) => route,
                None => &self.fallback,
            },
        }
    }
}

/// A route manager built from any routes holds a default route, and keeps the
/// given routes, in order, in front.
pub proof fn law_new_has_default(routes: Seq<RouteView>)
    ensures
        first_from(normalized(routes), 0, default_selector()) is Some,
        normalized(routes).take(routes.len() as int) == routes,
{
    let n = normalized(routes);
    lemma_first_from_range(n, 0, default_selector());
    if exists|i: int| 0 <= i < routes.len() && (#[trigger] routes[i]).rule_type == RuleType::Default {
        let i = choose|i: int| 0 <= i < routes.len() && (#[trigger] routes[i]).rule_type == RuleType::Default;
        assert(default_selector()(n[i]));
    } else {
        assert(default_selector()(n[routes.len() as int]));
    }
    assert(n.take(routes.len() as int) =~= routes);
}

/// Normalizing twice is normalizing once.
pub proof fn law_normalize_idempotent(routes: Seq<RouteView>)
    ensures
        normalized(normalized(routes)) == normalized(routes),
{
    let n = normalized(routes);
    if !(exists|i: int| 0 <= i < routes.len() && (#[trigger] routes[i]).rule_type == RuleType::Default) {
        assert(n[routes.len() as int].rule_type == RuleType::Default);
    }
}

/// The route chosen for a target is one of the configured routes, or the
/// built-in default when no configured route is a default route and none is
/// selected.
pub proof fn law_route_is_configured(
    rs: Seq<RouteView>,
    dst: DstType,
    resolver: DNSResolver,
    resolved: Option<IpAddress>,
    geo: GeoView,
)
    ensures
        (exists|k: int| 0 <= k < rs.len() && rs[k] == route_for(rs, dst, resolver, resolved, geo))
            || route_for(rs, dst, resolver, resolved, geo) == builtin_default(),
        first_from(rs, 0, default_selector()) is Some ==> exists|k: int|
            0 <= k < rs.len() && rs[k] == route_for(rs, dst, resolver, resolved, geo),
{
    lemma_first_from_range(rs, 0, default_selector());
    match dst {
        DstType::Ipv4(a) => lemma_first_from_range(rs, 0, address_selector(IpAddress::V4(a), geo)),
        DstType::Ipv6(a) => lemma_first_from_range(rs, 0, address_selector(IpAddress::V6(a), geo)),
        DstType::DomainName(n) => {
            lemma_first_from_range(rs, 0, domain_selector(n@));
            if resolved is Some {
                lemma_first_from_range(rs, 0, address_selector(resolved.unwrap(), geo));
            }
        },
    }
    let r = route_for(rs, dst, resolver, resolved, geo);
    match selected_route(rs, dst, resolver, resolved, geo) {
        Some(k) => {
            assert(rs[k] == r);
        },
        None => match first_from(rs, 0, default_selector()) {
            Some(k) => {
                assert(rs[k] == r);
            },
            None => {},
        },
    }
}

proof fn lemma_first_from_at(routes: Seq<RouteView>, i: int, sel: spec_fn(RouteView) -> bool, k: int)
    requires
        0 <= i <= k < routes.len(),
        sel(routes[k]),
        forall|j: int| i <= j < k ==> !sel(#[trigger] routes[j]),
    ensures
        first_from(routes, i, sel) == Some(k),
    decreases k - i,
{
    if i < k {
        lemma_first_from_at(routes, i + 1, sel, k);
    }
}

/// Routes are tried in order: for an address target, the first route whose
/// address rule matches the address is the route taken, whatever follows it.
pub proof fn law_first_matching_route_wins(
    rs: Seq<RouteView>,
    ip: IpAddress,
    resolver: DNSResolver,
    resolved: Option<IpAddress>,
    geo: GeoView,
    k: int,
)
    requires
        0 <= k < rs.len(),
        address_rule_selects(rs[k], ip, geo),
        forall|j: int| 0 <= j < k ==> !address_rule_selects(#[trigger] rs[j], ip, geo),
    ensures
        route_for(
            rs,
            match ip {
                IpAddress::V4(a) => DstType::Ipv4(a),
                IpAddress::V6(a) => DstType::Ipv6(a),
            },
            resolver,
            resolved,
            geo,
        ) == rs[k],
{
    assert forall|j: int| 0 <= j < k implies !address_selector(ip, geo)(#[trigger] rs[j]) by {}
    lemma_first_from_at(rs, 0, address_selector(ip, geo), k);
}

/// A target that no rule matches takes the first default route, or the
/// built-in default when no default route is configured; either way a default
/// route.
pub proof fn law_unmatched_targets_take_default(
    rs: Seq<RouteView>,
    dst: DstType,
    resolver: DNSResolver,
    resolved: Option<IpAddress>,
    geo: GeoView,
)
    requires
        selected_route(rs, dst, resolver, resolved, geo) is None,
    ensures
        route_for(rs, dst, resolver, resolved, geo).rule_type == RuleType::Default,
        forall|k: int|
            0 <= k < rs.len() && (#[trigger] rs[k]).rule_type == RuleType::Default && (forall|j: int|
                0 <= j < k ==> (#[trigger] rs[j]).rule_type != RuleType::Default) ==> route_for(
                rs,
                dst,
                resolver,
                resolved,
                geo,
            ) == rs[k],
        (forall|k: int| 0 <= k < rs.len() ==> (#[trigger] rs[k]).rule_type != RuleType::Default)
            ==> route_for(rs, dst, resolver, resolved, geo) == builtin_default(),
{
    lemma_first_from_range(rs, 0, default_selector());
    assert forall|k: int|
        0 <= k < rs.len() && (#[trigger] rs[k]).rule_type == RuleType::Default && (forall|j: int|
            0 <= j < k ==> (#[trigger] rs[j]).rule_type != RuleType::Default) implies route_for(
        rs,
        dst,
        resolver,
        resolved,
        geo,
    ) == rs[k] by {
        assert forall|j: int| 0 <= j < k implies !default_selector()(#[trigger] rs[j]) by {}
        lemma_first_from_at(rs, 0, default_selector(), k);
    }
    if forall|k: int| 0 <= k < rs.len() ==> (#[trigger] rs[k]).rule_type != RuleType::Default {
        if first_from(rs, 0, default_selector()) is Some {
            let k = first_from(rs, 0, default_selector()).unwrap();
            assert(rs[k].rule_type == RuleType::Default);
        }
    }
}

/// When names are resolved by the server, a domain name is routed by the
/// domain routes alone: the route chosen for it is a domain route or a
/// default route.
pub proof fn law_remote_names_use_domain_rules_only(
    rs: Seq<RouteView>,
    name: String,
    resolved: Option<IpAddress>,
    geo: GeoView,
)
    ensures
        ({
            let r = route_for(rs, DstType::DomainName(name), DNSResolver::Remote, resolved, geo);
            r.rule_type == RuleType::Domain || r.rule_type == RuleType::Default
        }),
{
    lemma_first_from_range(rs, 0, domain_selector(name@));
    lemma_first_from_range(rs, 0, default_selector());
}

/// An address target is never routed by a domain route.
pub proof fn law_addresses_skip_domain_rules(
    rs: Seq<RouteView>,
    dst: DstType,
    resolver: DNSResolver,
    resolved: Option<IpAddress>,
    geo: GeoView,
)
    requires
        !(dst is DomainName),
    ensures
        route_for(rs, dst, resolver, resolved, geo).rule_type != RuleType::Domain,
{
    lemma_first_from_range(rs, 0, default_selector());
    match dst {
        DstType::Ipv4(a) => lemma_first_from_range(rs, 0, address_selector(IpAddress::V4(a), geo)),
        DstType::Ipv6(a) => lemma_first_from_range(rs, 0, address_selector(IpAddress::V6(a), geo)),
        _ => {},
    }
}

} // verus!
