//! The configuration model: logging, the inbound, the outbounds, the routes
//! and name resolution, and the choice of the outbound for a request.
use vstd::prelude::*;

use crate::dns_config::DnsConfig;
use crate::ethan_proto::ConnectRequest;
use crate::net::IpAddress;
use crate::route_config::{route_for, GeoInfo, RouteManager};
use crate::text::{
    chars_eq_ignore_ascii_case, chars_of, eq_ignore_ascii_case, lowercase, split_chars, split_on,
    str_eq_ignore_ascii_case, texts_of, to_lowercase,
};

verus! {

// ---------------------------------------------------------------------------
// Logging.
/// A logging level.
#[derive(Debug, Clone, Copy, PartialEq, Eq, Structural)]
pub enum LogLevel {
    Error,
    Warn,
    Info,
    Debug,
    Trace,
}

/// A logging level filter: a level, or no logging at all.
#[derive(Debug, Clone, Copy, PartialEq, Eq, Structural)]
pub enum LogLevelFilter {
    Off,
    Error,
    Warn,
    Info,
    Debug,
    Trace,
}

/// The filter whose name is `s`, compared without ASCII case: "OFF",
/// "ERROR", "WARN", "INFO", "DEBUG" or "TRACE".
pub open spec fn level_filter_named(s: Seq<char>) -> Option<LogLevelFilter> {
    if eq_ignore_ascii_case(s, seq!['O', 'F', 'F']) {
        Some(LogLevelFilter::Off)
    } else if eq_ignore_ascii_case(s, seq!['E', 'R', 'R', 'O', 'R']) {
        Some(LogLevelFilter::Error)
    } else if eq_ignore_ascii_case(s, seq!['W', 'A', 'R', 'N']) {
        Some(LogLevelFilter::Warn)
    } else if eq_ignore_ascii_case(s, seq!['I', 'N', 'F', 'O']) {
        Some(LogLevelFilter::Info)
    } else if eq_ignore_ascii_case(s, seq!['D', 'E', 'B', 'U', 'G']) {
        Some(LogLevelFilter::Debug)
    } else if eq_ignore_ascii_case(s, seq!['T', 'R', 'A', 'C', 'E']) {
        Some(LogLevelFilter::Trace)
    } else {
        None
    }
}

/// The level whose name is `s`, compared without ASCII case ("OFF" is none).
pub open spec fn level_named(s: Seq<char>) -> Option<LogLevel> {
    match level_filter_named(s) {
        Some(LogLevelFilter::Error) => Some(LogLevel::Error),
        Some(LogLevelFilter::Warn) => Some(LogLevel::Warn),
        Some(LogLevelFilter::Info) => Some(LogLevel::Info),
        Some(LogLevelFilter::Debug) => Some(LogLevel::Debug),
        Some(LogLevelFilter::Trace) => Some(LogLevel::Trace),
        _ => None,
    }
}

/// Calls `log::Level::from_str`, which compares the text without ASCII case
/// with the names "ERROR", "WARN", "INFO", "DEBUG" and "TRACE" (its source
/// loops over these names with `eq_ignore_ascii_case`). Claimed: exactly that.
#[verifier::external_body]
fn parse_level(s: &str) -> (r: Option<LogLevel>)
    ensures
        r == level_named(s@),
{
    match s.parse::<log::Level>() {
        Ok(log::Level::Error) => Some(LogLevel::Error),
        Ok(log::Level::Warn) => Some(LogLevel::Warn),
        Ok(log::Level::Info) => Some(LogLevel::Info),
        Ok(log::Level::Debug) => Some(LogLevel::Debug),
        Ok(log::Level::Trace) => Some(LogLevel::Trace),
        Err(_) => None,
    }
}

/// Calls `log::LevelFilter::from_str`, which compares the text without ASCII
/// case with "OFF" and the five level names. Claimed: exactly that.
#[verifier::external_body]
fn parse_level_filter(s: &str) -> (r: Option<LogLevelFilter>)
    ensures
        r == level_filter_named(s@),
{
    match s.parse::<log::LevelFilter>() {
        Ok(log::LevelFilter::Off) => Some(LogLevelFilter::Off),
        Ok(log::LevelFilter::Error) => Some(LogLevelFilter::Error),
        Ok(log::LevelFilter::Warn) => Some(LogLevelFilter::Warn),
        Ok(log::LevelFilter::Info) => Some(LogLevelFilter::Info),
        Ok(log::LevelFilter::Debug) => Some(LogLevelFilter::Debug),
        Ok(log::LevelFilter::Trace) => Some(LogLevelFilter::Trace),
        Err(_) => None,
    }
}

/// An error of the configuration.
#[derive(Debug, PartialEq, Eq)]
pub enum ConfigError {
    /// The access log level names no level.
    UnknownLogLevel(String),
    /// No route is configured.
    NoRoutes,
    /// No outbound has the name that the chosen route leads to.
    NoOutboundNamed(String),
}

/// Where the access log goes, and from which level on.
#[derive(Debug, PartialEq, Eq)]
pub struct AccessLogConfig {
    level: String,
    path: String,
}

/// Where the error log goes.
#[derive(Debug, PartialEq, Eq)]
pub struct ErrorLogConfig {
    path: String,
}

/// The logging configuration.
#[derive(Debug, PartialEq, Eq)]
pub struct LogConfig {
    access: AccessLogConfig,
}

impl AccessLogConfig {
    pub fn new(level: String, path: String) -> (r: Self)
        ensures
            r.level_text() == level@,
            r.path_text() == path@,
    {
        AccessLogConfig { level, path }
    }

    pub closed spec fn level_text(&self) -> Seq<char> {
        self.level@
    }

    /// The level's text, as configured.
    pub fn level(&self) -> (r: &str)
        ensures
            r@ == self.level_text(),
    {
        self.level.as_str()
    }

    /// Where the access log goes.
    pub fn path(&self) -> (r: &str)
        ensures
            r@ == self.path_text(),
    {
        self.path.as_str()
    }

    pub closed spec fn path_text(&self) -> Seq<char> {
        self.path@
    }
}

impl ErrorLogConfig {
    pub fn new(path: String) -> (r: Self)
        ensures
            r.path_text() == path@,
    {
        ErrorLogConfig { path }
    }

    pub closed spec fn path_text(&self) -> Seq<char> {
        self.path@
    }

    pub fn path(&self) -> (r: &str)
        ensures
            r@ == self.path_text(),
    {
        self.path.as_str()
    }
}

impl LogConfig {
    pub fn new(access: AccessLogConfig) -> (r: Self)
        ensures
            r.access_level() == access.level_text(),
            r.access_path_text() == access.path_text(),
    {
        LogConfig { access }
    }

    pub closed spec fn access_level(&self) -> Seq<char> {
        self.access.level@
    }

    pub closed spec fn access_path_text(&self) -> Seq<char> {
        self.access.path@
    }

    /// The access log's configuration.
    pub fn access(&self) -> (r: &AccessLogConfig)
        ensures
            r.level_text() == self.access_level(),
            r.path_text() == self.access_path_text(),
    {
        &self.access
    }

    /// The level that the access level names, lowercased first.
    pub fn level(&self) -> (r: Result<LogLevel, ConfigError>)
        ensures
            match level_named(lowercase(self.access_level())) {
                Some(l) => r == Ok::<LogLevel, ConfigError>(l),
                None => r matches Err(ConfigError::UnknownLogLevel(t)) && t@ == self.access_level(),
            },
    {
        let lower = to_lowercase(self.access.level.as_str());
        match parse_level(lower.as_str()) {
            Some(l) => Ok(l),
            None => Err(ConfigError::UnknownLogLevel(self.access.level.clone())),
        }
    }

    /// The filter that the access level names, lowercased first.
    pub fn level_filter(&self) -> (r: Result<LogLevelFilter, ConfigError>)
        ensures
            match level_filter_named(lowercase(self.access_level())) {
                Some(l) => r == Ok::<LogLevelFilter, ConfigError>(l),
                None => r matches Err(ConfigError::UnknownLogLevel(t)) && t@ == self.access_level(),
            },
    {
        let lower = to_lowercase(self.access.level.as_str());
        match parse_level_filter(lower.as_str()) {
            Some(l) => Ok(l),
            None => Err(ConfigError::UnknownLogLevel(self.access.level.clone())),
        }
    }

    /// Where the access log goes.
    pub fn access_path(&self) -> (r: &str)
        ensures
            r@ == self.access_path_text(),
    {
        self.access.path.as_str()
    }
}

// ---------------------------------------------------------------------------
// Inbounds.
/// The TLS identity of an Ethan server.
#[derive(Debug, Clone, PartialEq, Eq)]
pub struct TlsServerConfig {
    /// The certificate chain.
    pub crt_path: String,
    /// The private key.
    pub key_path: String,
    pub domain_name: String,
}

/// A SOCKS5 inbound: the port, and the user and password when clients must
/// authenticate.
#[derive(Debug, Clone, PartialEq, Eq)]
pub struct SocksInBoundConfig {
    port: u16,
    uid: Option<String>,
    pwd: Option<String>,
}

pub open spec fn opt_view(o: Option<String>) -> Option<Seq<char>> {
    match o {
        Some(s) => Some(s@),
        None => None,
    }
}

pub open spec fn opt_str_view(o: Option<&str>) -> Option<Seq<char>> {
    match o {
        Some(s) => Some(s@),
        None => None,
    }
}

fn duplicate_opt(o: &Option<String>) -> (r: Option<String>)
    ensures
        r == *o,
{
    match o {
        Some(s) => Some(s.clone()),
        None => None,
    }
}

impl TlsServerConfig {
    /// A copy of this configuration.
    pub fn duplicate(&self) -> (r: Self)
        ensures
            r == *self,
    {
        TlsServerConfig {
            crt_path: self.crt_path.clone(),
            key_path: self.key_path.clone(),
            domain_name: self.domain_name.clone(),
        }
    }
}

impl SocksInBoundConfig {
    /// A copy of this configuration.
    pub fn duplicate(&self) -> (r: Self)
        ensures
            r == *self,
    {
        SocksInBoundConfig { port: self.port, uid: duplicate_opt(&self.uid), pwd: duplicate_opt(&self.pwd) }
    }

    pub fn new(port: u16, uid: Option<String>, pwd: Option<String>) -> (r: Self)
        ensures
            r.port_spec() == port,
            r.uid_spec() == opt_view(uid),
            r.pwd_spec() == opt_view(pwd),
    {
        SocksInBoundConfig { port, uid, pwd }
    }

    pub closed spec fn port_spec(&self) -> u16 {
        self.port
    }

    pub closed spec fn uid_spec(&self) -> Option<Seq<char>> {
        opt_view(self.uid)
    }

    pub closed spec fn pwd_spec(&self) -> Option<Seq<char>> {
        opt_view(self.pwd)
    }

    pub fn port(&self) -> (r: u16)
        ensures
            r == self.port_spec(),
    {
        self.port
    }

    pub fn uid(&self) -> (r: Option<&str>)
        ensures
            opt_str_view(r) == self.uid_spec(),
    {
        match &self.uid {
            Some(s) => Some(s.as_str()),
            None => None,
        }
    }

    pub fn pwd(&self) -> (r: Option<&str>)
        ensures
            opt_str_view(r) == self.pwd_spec(),
    {
        match &self.pwd {
            Some(s) => Some(s.as_str()),
            None => None,
        }
    }
}

/// An Ethan inbound: the port, the user and password that clients present,
/// and the TLS identity when the link is protected.
#[derive(Debug, Clone, PartialEq, Eq)]
pub struct EthanInBoundConfig {
    port: u16,
    uid: String,
    pwd: String,
    tls: Option<TlsServerConfig>,
}

impl EthanInBoundConfig {
    /// A copy of this configuration.
    pub fn duplicate(&self) -> (r: Self)
        ensures
            r == *self,
    {
        let tls = match &self.tls {
            Some(t) => Some(t.duplicate()),
            None => None,
        };
        EthanInBoundConfig { port: self.port, uid: self.uid.clone(), pwd: self.pwd.clone(), tls }
    }

    pub fn new(port: u16, uid: String, pwd: String, tls_config: Option<TlsServerConfig>) -> (r: Self)
        ensures
            r.port_spec() == port,
            r.uid_spec() == uid@,
            r.pwd_spec() == pwd@,
            r.tls_spec() == tls_config,
    {
        EthanInBoundConfig { port, uid, pwd, tls: tls_config }
    }

    pub closed spec fn port_spec(&self) -> u16 {
        self.port
    }

    pub closed spec fn uid_spec(&self) -> Seq<char> {
        self.uid@
    }

    pub closed spec fn pwd_spec(&self) -> Seq<char> {
        self.pwd@
    }

    pub closed spec fn tls_spec(&self) -> Option<TlsServerConfig> {
        self.tls
    }

    pub fn tls(&self) -> (r: &Option<TlsServerConfig>)
        ensures
            *r == self.tls_spec(),
    {
        &self.tls
    }

    pub fn port(&self) -> (r: u16)
        ensures
            r == self.port_spec(),
    {
        self.port
    }

    pub fn uid(&self) -> (r: &str)
        ensures
            r@ == self.uid_spec(),
    {
        self.uid.as_str()
    }

    pub fn pwd(&self) -> (r: &str)
        ensures
            r@ == self.pwd_spec(),
    {
        self.pwd.as_str()
    }
}

/// The inbound: SOCKS5 or Ethan.
#[derive(Debug, Clone, PartialEq, Eq)]
pub enum InBoundTypeConfig {
    Socks5(SocksInBoundConfig),
    Ethan(EthanInBoundConfig),
}

impl InBoundTypeConfig {
    /// The port that the inbound listens on.
    pub fn port(&self) -> (r: u16)
        ensures
            r == match self {
                InBoundTypeConfig::Socks5(c) => c.port_spec(),
                InBoundTypeConfig::Ethan(c) => c.port_spec(),
            },
    {
        match self {
            InBoundTypeConfig::Socks5(c) => c.port(),
            InBoundTypeConfig::Ethan(c) => c.port(),
        }
    }
}

// ---------------------------------------------------------------------------
// Outbounds.
/// How an Ethan client protects its link: whether TLS is used, the name that
/// the server's certificate must carry, and a certificate to trust besides the
/// public roots (empty for none).
#[derive(Debug, Clone, PartialEq, Eq)]
pub struct TlsClientConfig {
    pub use_tls: bool,
    pub domain_name: String,
    pub crt_path: String,
}

impl TlsClientConfig {
    /// A copy of this configuration.
    pub fn duplicate(&self) -> (r: Self)
        ensures
            r == *self,
    {
        TlsClientConfig {
            use_tls: self.use_tls,
            domain_name: self.domain_name.clone(),
            crt_path: self.crt_path.clone(),
        }
    }
}

/// An Ethan outbound: its name, the server's address and port, the user and
/// password to present, and the TLS settings when the link is protected.
#[derive(Debug, Clone, PartialEq, Eq)]
pub struct EthanOutBoundConfig {
    name: String,
    addr: String,
    port: u16,
    uid: String,
    pwd: String,
    tls: Option<TlsClientConfig>,
}

impl EthanOutBoundConfig {
    pub fn new(
        name: String,
        addr: String,
        port: u16,
        uid: String,
        pwd: String,
        tls: Option<TlsClientConfig>,
    ) -> (r: Self)
        ensures
            r.name_spec() == name@,
            r.addr_spec() == addr@,
            r.port_spec() == port,
            r.uid_spec() == uid@,
            r.pwd_spec() == pwd@,
            r.tls_spec() == tls,
    {
        EthanOutBoundConfig { name, addr, port, uid, pwd, tls }
    }

    pub closed spec fn name_spec(&self) -> Seq<char> {
        self.name@
    }

    pub closed spec fn addr_spec(&self) -> Seq<char> {
        self.addr@
    }

    pub closed spec fn port_spec(&self) -> u16 {
        self.port
    }

    pub closed spec fn uid_spec(&self) -> Seq<char> {
        self.uid@
    }

    pub closed spec fn pwd_spec(&self) -> Seq<char> {
        self.pwd@
    }

    pub closed spec fn tls_spec(&self) -> Option<TlsClientConfig> {
        self.tls
    }

    pub fn name(&self) -> (r: &str)
        ensures
            r@ == self.name_spec(),
    {
        self.name.as_str()
    }

    pub fn uid(&self) -> (r: &str)
        ensures
            r@ == self.uid_spec(),
    {
        self.uid.as_str()
    }

    pub fn pwd(&self) -> (r: &str)
        ensures
            r@ == self.pwd_spec(),
    {
        self.pwd.as_str()
    }

    pub fn tls(&self) -> (r: &Option<TlsClientConfig>)
        ensures
            *r == self.tls_spec(),
    {
        &self.tls
    }

    /// The server's address: an IP address or a domain name.
    pub fn addr(&self) -> (r: &str)
        ensures
            r@ == self.addr_spec(),
    {
        self.addr.as_str()
    }

    /// The server's port.
    pub fn port(&self) -> (r: u16)
        ensures
            r == self.port_spec(),
    {
        self.port
    }

    /// A copy of this configuration.
    pub fn duplicate(&self) -> (r: Self)
        ensures
            r == *self,
    {
        let tls = match &self.tls {
            Some(t) => Some(t.duplicate()),
            None => None,
        };
        EthanOutBoundConfig {
            name: self.name.clone(),
            addr: self.addr.clone(),
            port: self.port,
            uid: self.uid.clone(),
            pwd: self.pwd.clone(),
            tls,
        }
    }
}

/// A direct outbound: connects to the target itself.
#[derive(Debug, Clone, PartialEq, Eq)]
pub struct DirectOutputConfig {
    name: String,
}

impl DirectOutputConfig {
    pub fn new(name: &str) -> (r: Self)
        ensures
            r.name_spec() == name@,
    {
        DirectOutputConfig { name: name.to_string() }
    }

    pub closed spec fn name_spec(&self) -> Seq<char> {
        self.name@
    }

    pub fn name(&self) -> (r: &str)
        ensures
            r@ == self.name_spec(),
    {
        self.name.as_str()
    }
}

/// An outbound: Ethan or direct.
#[derive(Debug, Clone, PartialEq, Eq)]
pub enum OutBoundTypeConfig {
    Ethan(EthanOutBoundConfig),
    Direct(DirectOutputConfig),
}

/// The name of an outbound.
pub open spec fn outbound_name(o: OutBoundTypeConfig) -> Seq<char> {
    match o {
        OutBoundTypeConfig::Ethan(c) => c.name_spec(),
        OutBoundTypeConfig::Direct(c) => c.name_spec(),
    }
}

impl OutBoundTypeConfig {
    /// Whether this outbound's name is `name`, ASCII letters compared
    /// without case.
    pub fn eq_name_ignore_case(&self, name: &str) -> (r: bool)
        ensures
            r == eq_ignore_ascii_case(outbound_name(*self), name@),
    {
        match self {
            OutBoundTypeConfig::Ethan(c) => str_eq_ignore_ascii_case(c.name(), name),
            OutBoundTypeConfig::Direct(c) => str_eq_ignore_ascii_case(c.name(), name),
        }
    }

    /// A copy of this outbound.
    pub fn duplicate(&self) -> (r: Self)
        ensures
            r == *self,
    {
        match self {
            OutBoundTypeConfig::Ethan(c) => OutBoundTypeConfig::Ethan(c.duplicate()),
            OutBoundTypeConfig::Direct(c) => OutBoundTypeConfig::Direct(
                DirectOutputConfig { name: c.name.clone() },
            ),
        }
    }
}

/// The first outbound whose name is `name` without ASCII case, from index `i` on.
pub open spec fn first_named(outs: Seq<OutBoundTypeConfig>, i: int, name: Seq<char>) -> Option<int>
    decreases outs.len() - i,
{
    if i < 0 || i >= outs.len() {
        None
    } else if eq_ignore_ascii_case(outbound_name(outs[i]), name) {
        Some(i)
    } else {
        first_named(outs, i + 1, name)
    }
}

/// The outbound picked for a name is the first whose name equals it with
/// ASCII case ignored; none is picked only when no outbound's name does.
pub proof fn law_first_named_ignores_case(outs: Seq<OutBoundTypeConfig>, name: Seq<char>, i: int)
    requires
        0 <= i <= outs.len(),
    ensures
        first_named(outs, i, name) matches Some(k) ==> i <= k < outs.len() && eq_ignore_ascii_case(
            outbound_name(outs[k]),
            name,
        ) && forall|j: int|
            i <= j < k ==> !eq_ignore_ascii_case(outbound_name(#[trigger] outs[j]), name),
        first_named(outs, i, name) is None <==> forall|j: int|
            i <= j < outs.len() ==> !eq_ignore_ascii_case(outbound_name(#[trigger] outs[j]), name),
    decreases outs.len() - i,
{
    if i < outs.len() {
        law_first_named_ignores_case(outs, name, i + 1);
    }
}

// ---------------------------------------------------------------------------
// The whole configuration.
/// The configuration of the proxy.
#[derive(Debug)]
pub struct AppConfig {
    log: LogConfig,
    inbound: InBoundTypeConfig,
    outbounds: Vec<OutBoundTypeConfig>,
    routes: RouteManager,
    dns: DnsConfig,
}

impl AppConfig {
    /// The routes keep the built-in default as their stand-in route.
    pub open spec fn wf(&self) -> bool {
        self.routes_spec().wf()
    }

    pub closed spec fn routes_spec(&self) -> RouteManager {
        self.routes
    }

    pub closed spec fn outbounds_spec(&self) -> Seq<OutBoundTypeConfig> {
        self.outbounds@
    }

    pub closed spec fn inbound_spec(&self) -> InBoundTypeConfig {
        self.inbound
    }

    pub closed spec fn dns_spec(&self) -> DnsConfig {
        self.dns
    }

    pub closed spec fn log_spec(&self) -> LogConfig {
        self.log
    }

    pub fn new(
        log: LogConfig,
        inbound: InBoundTypeConfig,
        outbounds: Vec<OutBoundTypeConfig>,
        routes: RouteManager,
        dns: DnsConfig,
    ) -> (r: Self)
        ensures
            r.log_spec() == log,
            r.inbound_spec() == inbound,
            r.outbounds_spec() == outbounds@,
            r.routes_spec() == routes,
            r.dns_spec() == dns,
    {
        AppConfig { log, inbound, outbounds, routes, dns }
    }

    pub fn inbound(&self) -> (r: &InBoundTypeConfig)
        ensures
            *r == self.inbound_spec(),
    {
        &self.inbound
    }

    pub fn outbounds(&self) -> (r: &[OutBoundTypeConfig])
        ensures
            r@ == self.outbounds_spec(),
    {
        self.outbounds.as_slice()
    }

    pub fn log(&self) -> (r: &LogConfig)
        ensures
            *r == self.log_spec(),
    {
        &self.log
    }

    pub fn routes(&self) -> (r: &RouteManager)
        ensures
            *r == self.routes_spec(),
    {
        &self.routes
    }

    /// Name resolution: where and with which servers.
    pub fn dns(&self) -> (r: &DnsConfig)
        ensures
            *r == self.dns_spec(),
    {
        &self.dns
    }

    /// The outbound for a request: the first outbound whose name is, without
    /// ASCII case, the outbound named by the request's route. `resolved` is
    /// the address that the request's domain name resolved to, when it was
    /// resolved, and `geo` the GeoIP facts of the address that is matched.
    /// Fails when no route is configured, or when no outbound has that name.
    pub fn get_forward_to_remote(
        &self,
        connect_request: &ConnectRequest,
        resolved: Option<IpAddress>,
        geo: &GeoInfo,
    ) -> (r: Result<OutBoundTypeConfig, ConfigError>)
        requires
            self.wf(),
        ensures
            self.routes_spec()@.routes.len() == 0 ==> r == Err::<OutBoundTypeConfig, ConfigError>(
                ConfigError::NoRoutes,
            ),
            self.routes_spec()@.routes.len() > 0 ==> {
                let to = route_for(
                    self.routes_spec()@.routes,
                    connect_request.dst_spec(),
                    self.dns_spec().resolver,
                    resolved,
                    geo@,
                ).to;
                match first_named(self.outbounds_spec(), 0, to) {
                    Some(k) => r == Ok::<OutBoundTypeConfig, ConfigError>(self.outbounds_spec()[k]),
                    None => r matches Err(ConfigError::NoOutboundNamed(t)) && t@ == to,
                }
            },
            self.routes_spec()@.routes.len() > 0 ==> {
                let to = route_for(
                    self.routes_spec()@.routes,
                    connect_request.dst_spec(),
                    self.dns_spec().resolver,
                    resolved,
                    geo@,
                ).to;
                let outs = self.outbounds_spec();
                &&& r matches Ok(o) ==> exists|k: int|
                    0 <= k < outs.len() && outs[k] == o && eq_ignore_ascii_case(
                        outbound_name(#[trigger] outs[k]),
                        to,
                    ) && forall|j: int|
                        0 <= j < k ==> !eq_ignore_ascii_case(outbound_name(#[trigger] outs[j]), to)
                &&& r is Err ==> forall|j: int|
                    0 <= j < outs.len() ==> !eq_ignore_ascii_case(outbound_name(#[trigger] outs[j]), to)
            },
    {
        if self.routes.is_empty() {
            return Err(ConfigError::NoRoutes);
        }
        let route = self.routes.get_match(
            connect_request.dst_type(),
            self.dns.resolver,
            resolved,
            geo,
        );
        let to = route.to();
        let ghost outs = self.outbounds@;
        proof {
            law_first_named_ignores_case(outs, to@, 0);
        }
        let mut i: usize = 0;
        while i < self.outbounds.len()
            invariant
                i <= self.outbounds@.len(),
                outs == self.outbounds@,
                outs == self.outbounds_spec(),
                self.routes_spec()@.routes.len() > 0,
                to@ == route_for(
                    self.routes_spec()@.routes,
                    connect_request.dst_spec(),
                    self.dns_spec().resolver,
                    resolved,
                    geo@,
                ).to,
                first_named(outs, 0, to@) == first_named(outs, i as int, to@),
            decreases self.outbounds@.len() - i,
        {
            if self.outbounds[i].eq_name_ignore_case(to) {
                proof {
                    law_first_named_ignores_case(outs, to@, 0);
                    assert(first_named(outs, i as int, to@) == Some(i as int));
                    assert(eq_ignore_ascii_case(outbound_name(outs[i as int]), to@));
                }
                return Ok(self.outbounds[i].duplicate());
            }
            i = i + 1;
        }
        Err(ConfigError::NoOutboundNamed(to.to_string()))
    }
}

// ---------------------------------------------------------------------------
// The format of a configuration file.
/// The format a configuration file is read in.
#[derive(Debug, Clone, Copy, PartialEq, Eq, Structural)]
pub enum ConfigFormat {
    Json,
    Toml,
}

/// The last component of a path that names something: empty components and
/// `.` components are passed over.
pub open spec fn last_named(cs: Seq<Seq<char>>) -> Option<Seq<char>>
    decreases cs.len(),
{
    if cs.len() == 0 {
        None
    } else if cs.last().len() == 0 || cs.last() == seq!['.'] {
        last_named(cs.drop_last())
    } else {
        Some(cs.last())
    }
}

/// The file name of a path: its last component, none when that is `..`.
pub open spec fn file_name(p: Seq<char>) -> Option<Seq<char>> {
    match last_named(split_on(p, seq!['/'])) {
        Some(c) => if c == seq!['.', '.'] {
            None
        } else {
            Some(c)
        },
        None => None,
    }
}

/// The index of the last `.` in `f` below `end`.
pub open spec fn last_dot_before(f: Seq<char>, end: int) -> Option<int>
    decreases end,
{
    if end <= 0 {
        None
    } else if f[end - 1] == '.' {
        Some(end - 1)
    } else {
        last_dot_before(f, end - 1)
    }
}

/// The extension of a file name: the text after its last `.`; none when it
/// has no `.`, or when its only `.` is its first character.
pub open spec fn extension(f: Seq<char>) -> Option<Seq<char>> {
    match last_dot_before(f, f.len() as int) {
        Some(i) => if i == 0 {
            None
        } else {
            Some(f.skip(i + 1))
        },
        None => None,
    }
}

/// JSON for a file whose extension is "json" in any ASCII case, TOML for any
/// other file.
pub open spec fn format_of(path: Seq<char>) -> ConfigFormat {
    match file_name(path) {
        Some(f) => match extension(f) {
            Some(e) => if eq_ignore_ascii_case(e, seq!['j', 's', 'o', 'n']) {
                ConfigFormat::Json
            } else {
                ConfigFormat::Toml
            },
            None => ConfigFormat::Toml,
        },
        None => ConfigFormat::Toml,
    }
}

fn last_named_component(cs: &Vec<Vec<char>>) -> (r: Option<usize>)
    ensures
        match last_named(texts_of(cs@)) {
            Some(c) => r matches Some(k) && k < cs@.len() && cs@[k as int]@ == c,
            None => r is None,
        },
{
    let ghost ts = texts_of(cs@);
    let mut n: usize = cs.len();
    assert(ts.take(n as int) =~= ts);
    while n > 0
        invariant
            n <= cs@.len(),
            ts == texts_of(cs@),
            last_named(ts) == last_named(ts.take(n as int)),
        decreases n,
    {
        let c = &cs[n - 1];
        let ghost pre = ts.take(n as int);
        assert(pre.last() == c@);
        assert(pre.drop_last() =~= ts.take(n - 1));
        if c.len() == 0 || (c.len() == 1 && c[0] == '.') {
            assert(c@.len() == 1 && c@[0] == '.' ==> c@ =~= seq!['.']);
            n = n - 1;
        } else {
            assert(c@ != seq!['.']);
            return Some(n - 1);
        }
    }
    None
}

/// The format that a configuration file is read in, from its path.
pub fn config_format(path: &str) -> (r: ConfigFormat)
    ensures
        r == format_of(path@),
{
    let chars = chars_of(path);
    let slash = ['/'];
    assert(slash@ =~= seq!['/']);
    let components = split_chars(chars.as_slice(), slash.as_slice());
    let k = match last_named_component(&components) {
        Some(k) => k,
        None => {
            return ConfigFormat::Toml;
        },
    };
    let f = &components[k];
    if f.len() == 2 && f[0] == '.' && f[1] == '.' {
        assert(f@ =~= seq!['.', '.']);
        return ConfigFormat::Toml;
    }
    assert(f@ != seq!['.', '.']);
    let mut end: usize = f.len();
    while end > 0 && f[end - 1] != '.'
        invariant
            end <= f@.len(),
            last_dot_before(f@, f@.len() as int) == last_dot_before(f@, end as int),
        decreases end,
    {
        end = end - 1;
    }
    if end <= 1 {
        return ConfigFormat::Toml;
    }
    let ext = vstd::slice::slice_subrange(f.as_slice(), end, f.len());
    assert(ext@ =~= f@.skip(end as int));
    let json = ['j', 's', 'o', 'n'];
    assert(json@ =~= seq!['j', 's', 'o', 'n']);
    if chars_eq_ignore_ascii_case(ext, json.as_slice()) {
        ConfigFormat::Json
    } else {
        ConfigFormat::Toml
    }
}

} // verus!
