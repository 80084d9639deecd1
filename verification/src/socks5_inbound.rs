//! The server side of SOCKS5: choosing the authentication method, checking a
//! user and password (RFC 1929), and reading a request.
//!
//! Each exchange is read step by step: a step function looks at the bytes read
//! so far and says how many more to read, or what the exchange came to. The
//! caller reads exactly the number of bytes asked for.
use vstd::prelude::*;

use std::sync::Arc;

use crate::app_config::SocksInBoundConfig;
use crate::dns_config::DnsConfig;
use crate::ethan_proto::{
    address_bytes, address_type_of, length_byte, port_bytes, socks_target, ConnectRequest,
    ConnectView, DstView,
};
use crate::socks5_proto::{
    auth_method_byte, auth_method_of, auth_method_rank, cmd_of, server_supported_auths,
    server_supports, socks_response_encoding, AuthMethod, Cmd, SocksAddressType, SocksResponse,
    SocksResponseType, SocksResponseView, SOCKS_VERSION,
};
use crate::text::{lemma_lossy_text_of_encoding, lossy_string, lossy_text};
use vstd::utf8::encode_utf8;
use crate::ProxyError;

verus! {

// ---------------------------------------------------------------------------
// Choosing the method.
/// The method this server takes from the methods a client offers: password
/// authentication when offered, else no authentication when offered.
pub open spec fn best_supported(ms: Seq<AuthMethod>) -> Option<AuthMethod> {
    if ms.contains(AuthMethod::UserPwd) {
        Some(AuthMethod::UserPwd)
    } else if ms.contains(AuthMethod::NoAuth) {
        Some(AuthMethod::NoAuth)
    } else {
        None
    }
}

/// The method taken is one that the client offers and this server supports,
/// and no such method ranks higher; none is taken only when there is none.
pub proof fn law_best_supported_is_highest(ms: Seq<AuthMethod>)
    ensures
        best_supported(ms) is None <==> forall|i: int| 0 <= i < ms.len() ==> !server_supports(#[trigger] ms[i]),
        best_supported(ms) matches Some(m) ==> ms.contains(m) && server_supports(m) && forall|i: int|
            0 <= i < ms.len() && server_supports(#[trigger] ms[i]) ==> auth_method_rank(ms[i])
                <= auth_method_rank(m),
{
    if best_supported(ms) is None {
        assert forall|i: int| 0 <= i < ms.len() implies !server_supports(#[trigger] ms[i]) by {
            if server_supports(ms[i]) {
                assert(ms.contains(ms[i]));
            }
        }
    } else {
        let m = best_supported(ms).unwrap();
        if m == AuthMethod::NoAuth {
            assert forall|i: int| 0 <= i < ms.len() && server_supports(#[trigger] ms[i]) implies auth_method_rank(ms[i]) <= auth_method_rank(m) by {
                if ms[i] == AuthMethod::UserPwd {
                    assert(ms.contains(ms[i]));
                }
            }
        }
        let w = choose|i: int| 0 <= i < ms.len() && ms[i] == m;
        assert(0 <= w < ms.len() && ms[w] == m);
        assert(exists|i: int| 0 <= i < ms.len() && ms[i] == m);
    }
}

/// Of the methods a client offers, the one this server takes.
pub fn get_both_auth_method(client_auth_methods: &[AuthMethod]) -> (r: Option<&AuthMethod>)
    ensures
        match best_supported(client_auth_methods@) {
            Some(m) => r matches Some(x) && *x == m,
            None => r is None,
        },
{
    let mut best: Option<usize> = None;
    let mut i: usize = 0;
    while i < client_auth_methods.len()
        invariant
            i <= client_auth_methods@.len(),
            match best_supported(client_auth_methods@.take(i as int)) {
                Some(m) => best matches Some(k) && k < i && client_auth_methods@[k as int] == m,
                None => best is None,
            },
        decreases client_auth_methods@.len() - i,
    {
        let ghost prev = client_auth_methods@.take(i as int);
        let ghost next = client_auth_methods@.take(i + 1);
        assert(next =~= prev.push(client_auth_methods@[i as int]));
        let m = client_auth_methods[i];
        match m {
            AuthMethod::UserPwd => {
                match best {
                    Some(k) => {
                        if client_auth_methods[k] != AuthMethod::UserPwd {
                            best = Some(i);
                        }
                    },
                    None => {
                        best = Some(i);
                    },
                }
            },
            AuthMethod::NoAuth => {
                if best.is_none() {
                    best = Some(i);
                }
            },
            _ => {},
        }
        proof {
            assert(next[i as int] == m);
            assert(next.contains(m));
            assert forall|x: AuthMethod| next.contains(x) <==> (prev.contains(x) || x == m) by {
                if next.contains(x) {
                    let j = choose|j: int| 0 <= j < next.len() && next[j] == x;
                    if j < prev.len() {
                        assert(prev[j] == x);
                    }
                }
                if prev.contains(x) {
                    let j = choose|j: int| 0 <= j < prev.len() && prev[j] == x;
                    assert(next[j] == x);
                }
            }
        }
        i = i + 1;
    }
    assert(client_auth_methods@.take(client_auth_methods@.len() as int) =~= client_auth_methods@);
    match best {
        Some(k) => Some(&client_auth_methods[k]),
        None => None,
    }
}

/// The methods of `server`, in its order, that `client` offers as well.
pub open spec fn common_methods(server: Seq<AuthMethod>, client: Seq<AuthMethod>) -> Seq<AuthMethod>
    decreases server.len(),
{
    if server.len() == 0 {
        Seq::<AuthMethod>::empty()
    } else {
        let rest = common_methods(server.drop_last(), client);
        if client.contains(server.last()) {
            rest.push(server.last())
        } else {
            rest
        }
    }
}

/// Whether `m` is among `ms`.
fn method_offered(ms: &[AuthMethod], m: AuthMethod) -> (r: bool)
    ensures
        r == ms@.contains(m),
{
    let mut j: usize = 0;
    while j < ms.len()
        invariant
            j <= ms@.len(),
            forall|k: int| 0 <= k < j ==> ms@[k] != m,
        decreases ms@.len() - j,
    {
        if ms[j] == m {
            assert(ms@[j as int] == m);
            return true;
        }
        j = j + 1;
    }
    false
}

/// The methods of `server_auth_methods`, in its order, that the client offers.
pub fn find_both_support_auth_method(
    client_auth_methods: &[AuthMethod],
    server_auth_methods: &[AuthMethod],
) -> (r: Vec<AuthMethod>)
    ensures
        r@ == common_methods(server_auth_methods@, client_auth_methods@),
{
    let mut r: Vec<AuthMethod> = Vec::new();
    let mut i: usize = 0;
    while i < server_auth_methods.len()
        invariant
            i <= server_auth_methods@.len(),
            r@ == common_methods(server_auth_methods@.take(i as int), client_auth_methods@),
        decreases server_auth_methods@.len() - i,
    {
        assert(server_auth_methods@.take(i + 1).drop_last() =~= server_auth_methods@.take(i as int));
        let sm = server_auth_methods[i];
        let offered = method_offered(client_auth_methods, sm);
        if offered {
            r.push(sm);
        }
        i = i + 1;
    }
    assert(server_auth_methods@.take(server_auth_methods@.len() as int) =~= server_auth_methods@);
    r
}

/// Checks the version byte of a SOCKS5 message.
pub fn valid_socks_ver(ver: u8) -> (r: Result<(), ProxyError>)
    ensures
        r is Ok <==> ver == SOCKS_VERSION,
        r matches Err(e) ==> e is Socks5VersionIncorrect,
{
    if ver != SOCKS_VERSION {
        return Err(ProxyError::Socks5VersionIncorrect);
    }
    Ok(())
}

/// What a method negotiation came to so far.
#[derive(Debug)]
pub enum Greeting {
    /// Read this many more bytes.
    NeedMore(usize),
    /// The method taken; the server answers with its byte.
    Chosen(AuthMethod),
    /// The version byte is not 5.
    VersionIncorrect,
    /// The client offers no method that this server supports.
    NoSupportedMethod,
}

/// The methods that the bytes of a negotiation offer.
pub open spec fn offered_methods(b: Seq<u8>) -> Seq<AuthMethod> {
    b.map_values(|x: u8| auth_method_of(x))
}

/// The method this server takes from the methods a client offers: password
/// authentication when a user or password is configured, and then nothing
/// else; no authentication when none is configured.
pub open spec fn method_for(ms: Seq<AuthMethod>, password_required: bool) -> Option<AuthMethod> {
    if password_required {
        if ms.contains(AuthMethod::UserPwd) {
            Some(AuthMethod::UserPwd)
        } else {
            None
        }
    } else if ms.contains(AuthMethod::NoAuth) {
        Some(AuthMethod::NoAuth)
    } else {
        None
    }
}

/// What the bytes of a method negotiation (version, number of methods,
/// methods) come to, given whether a password is required.
pub open spec fn greeting_outcome(b: Seq<u8>, password_required: bool) -> Greeting {
    if b.len() == 0 {
        Greeting::NeedMore(1)
    } else if b[0] != SOCKS_VERSION {
        Greeting::VersionIncorrect
    } else if b.len() == 1 {
        Greeting::NeedMore(1)
    } else if b.len() < 2 + b[1] {
        Greeting::NeedMore((2 + b[1] - b.len()) as usize)
    } else {
        match method_for(offered_methods(b.subrange(2, 2 + b[1])), password_required) {
            Some(m) => Greeting::Chosen(m),
            None => Greeting::NoSupportedMethod,
        }
    }
}

/// While a password is required, no negotiation ends in no authentication;
/// while none is, none ends in the password exchange.
pub proof fn law_password_required_exactly_when_configured(b: Seq<u8>, password_required: bool)
    ensures
        greeting_outcome(b, password_required) matches Greeting::Chosen(m) ==> m == (if password_required {
            AuthMethod::UserPwd
        } else {
            AuthMethod::NoAuth
        }),
{
}

/// Looks at the bytes of a method negotiation read so far; `password_required`
/// says whether a user or password is configured.
pub fn greeting_step(buf: &[u8], password_required: bool) -> (r: Greeting)
    ensures
        r == greeting_outcome(buf@, password_required),
{
    if buf.len() == 0 {
        return Greeting::NeedMore(1);
    }
    if buf[0] != SOCKS_VERSION {
        return Greeting::VersionIncorrect;
    }
    if buf.len() == 1 {
        return Greeting::NeedMore(1);
    }
    let n = buf[1] as usize;
    if buf.len() < 2 + n {
        return Greeting::NeedMore(2 + n - buf.len());
    }
    let mut methods: Vec<AuthMethod> = Vec::new();
    let mut i: usize = 0;
    while i < n
        invariant
            i <= n,
            2 + n <= buf@.len(),
            buf@.len() <= usize::MAX,
            methods@ == offered_methods(buf@.subrange(2, 2 + i)),
        decreases n - i,
    {
        methods.push(AuthMethod::from_byte(&buf[2 + i]));
        i = i + 1;
        assert(offered_methods(buf@.subrange(2, 2 + i)) =~= offered_methods(
            buf@.subrange(2, 2 + i - 1),
        ).push(auth_method_of(buf@[2 + i - 1])));
    }
    let wanted = if password_required {
        AuthMethod::UserPwd
    } else {
        AuthMethod::NoAuth
    };
    if method_offered(methods.as_slice(), wanted) {
        Greeting::Chosen(wanted)
    } else {
        Greeting::NoSupportedMethod
    }
}

/// The answer to a method negotiation: version 5 and the method taken.
pub fn greeting_reply(m: AuthMethod) -> (r: Vec<u8>)
    ensures
        r@ == seq![SOCKS_VERSION, auth_method_byte(m)],
{
    let mut r: Vec<u8> = Vec::new();
    r.push(SOCKS_VERSION);
    r.push(m.to_byte());
    assert(r@ =~= seq![SOCKS_VERSION, auth_method_byte(m)]);
    r
}

/// What follows the choice of a method: nothing more for no authentication,
/// the user and password exchange for password authentication, and an error
/// for the methods this server does not carry out.
pub fn after_method(m: AuthMethod) -> (r: Result<bool, ProxyError>)
    ensures
        m == AuthMethod::NoAuth ==> r == Ok::<bool, ProxyError>(false),
        m == AuthMethod::UserPwd ==> r == Ok::<bool, ProxyError>(true),
        m == AuthMethod::Gssapi ==> (r matches Err(e) && e is Socks5NoSupportAuthMethod),
        m == AuthMethod::Reject ==> (r matches Err(e) && e is Socks5AuthReject),
{
    match m {
        AuthMethod::NoAuth => Ok(false),
        AuthMethod::UserPwd => Ok(true),
        AuthMethod::Gssapi => Err(ProxyError::Socks5NoSupportAuthMethod),
        AuthMethod::Reject => Err(ProxyError::Socks5AuthReject),
    }
}

// ---------------------------------------------------------------------------
// User and password.
/// Why a user and password exchange failed.
#[derive(Debug, Clone, Copy, PartialEq, Eq, Structural)]
pub enum UserPwdFailure {
    /// The version byte of the exchange is not 1.
    Version,
    /// The user is not the configured one.
    User,
    /// The password is not the configured one.
    Password,
}

/// What a user and password exchange came to so far.
#[derive(Debug)]
pub enum UserPwdStep {
    /// Read this many more bytes.
    NeedMore(usize),
    /// Accepted; the server answers `[1, 0]`.
    Accept,
    /// Refused; the server answers `[1, 1]`.
    Reject(UserPwdFailure),
}

/// What the bytes of a user and password exchange (version 1, length and
/// bytes of the user, length and bytes of the password) come to, the user and
/// the password read lossily as UTF-8 and compared with `uid` and `pwd`.
pub open spec fn userpwd_outcome(b: Seq<u8>, uid: Seq<char>, pwd: Seq<char>) -> UserPwdStep {
    if b.len() == 0 {
        UserPwdStep::NeedMore(1)
    } else if b[0] != 1 {
        UserPwdStep::Reject(UserPwdFailure::Version)
    } else if b.len() == 1 {
        UserPwdStep::NeedMore(1)
    } else if b.len() < 2 + b[1] {
        UserPwdStep::NeedMore((2 + b[1] - b.len()) as usize)
    } else if lossy_text(b.subrange(2, 2 + b[1])) != uid {
        UserPwdStep::Reject(UserPwdFailure::User)
    } else if b.len() == 2 + b[1] {
        UserPwdStep::NeedMore(1)
    } else if b.len() < 3 + b[1] + b[2 + b[1]] {
        UserPwdStep::NeedMore((3 + b[1] + b[2 + b[1]] - b.len()) as usize)
    } else if lossy_text(b.subrange(3 + b[1], 3 + b[1] + b[2 + b[1]])) != pwd {
        UserPwdStep::Reject(UserPwdFailure::Password)
    } else {
        UserPwdStep::Accept
    }
}

/// Looks at the bytes of a user and password exchange read so far.
pub fn userpwd_step(buf: &[u8], uid: &str, pwd: &str) -> (r: UserPwdStep)
    ensures
        r == userpwd_outcome(buf@, uid@, pwd@),
{
    if buf.len() == 0 {
        return UserPwdStep::NeedMore(1);
    }
    if buf[0] != 1 {
        return UserPwdStep::Reject(UserPwdFailure::Version);
    }
    if buf.len() == 1 {
        return UserPwdStep::NeedMore(1);
    }
    let ulen = buf[1] as usize;
    if buf.len() < 2 + ulen {
        return UserPwdStep::NeedMore(2 + ulen - buf.len());
    }
    let user = lossy_string(vstd::slice::slice_subrange(buf, 2, 2 + ulen));
    let expected_user = uid.to_string();
    if user != expected_user {
        return UserPwdStep::Reject(UserPwdFailure::User);
    }
    if buf.len() == 2 + ulen {
        return UserPwdStep::NeedMore(1);
    }
    let plen = buf[2 + ulen] as usize;
    if buf.len() < 3 + ulen + plen {
        return UserPwdStep::NeedMore(3 + ulen + plen - buf.len());
    }
    let password = lossy_string(vstd::slice::slice_subrange(buf, 3 + ulen, 3 + ulen + plen));
    let expected_pwd = pwd.to_string();
    if password != expected_pwd {
        return UserPwdStep::Reject(UserPwdFailure::Password);
    }
    UserPwdStep::Accept
}

/// The answer to a user and password exchange: version 1, then 0 when
/// accepted and 1 when refused.
pub fn userpwd_reply(accepted: bool) -> (r: Vec<u8>)
    ensures
        r@ == seq![1u8, if accepted { 0u8 } else { 1u8 }],
{
    let mut r: Vec<u8> = Vec::new();
    r.push(1u8);
    if accepted {
        r.push(0u8);
    } else {
        r.push(1u8);
    }
    assert(r@ =~= seq![1u8, if accepted { 0u8 } else { 1u8 }]);
    r
}

impl UserPwdFailure {
    /// The error that a refused exchange ends with.
    pub fn into_error(self) -> (r: ProxyError)
        ensures
            self == UserPwdFailure::Version ==> r is Socks5VersionIncorrect,
            self == UserPwdFailure::User ==> (r matches ProxyError::Socks5AuthError(m) && m@
                == "User is incorrect!"@),
            self == UserPwdFailure::Password ==> (r matches ProxyError::Socks5AuthError(m) && m@
                == "Pwd is incorrect!"@),
    {
        match self {
            UserPwdFailure::Version => ProxyError::Socks5VersionIncorrect,
            UserPwdFailure::User => ProxyError::Socks5AuthError("User is incorrect!".to_string()),
            UserPwdFailure::Password => ProxyError::Socks5AuthError("Pwd is incorrect!".to_string()),
        }
    }
}

// ---------------------------------------------------------------------------
// The request.
/// Why a request was refused.
#[derive(Debug, Clone, Copy, PartialEq, Eq, Structural)]
pub enum RequestFailure {
    /// The version byte is not 5.
    Version,
    /// The command byte names no command.
    UnknownCommand(u8),
    /// The address type byte names no address type.
    UnknownAddressType,
}

impl RequestFailure {
    /// The error that a refused request ends with.
    pub fn into_error(self) -> (r: ProxyError)
        ensures
            self == RequestFailure::Version ==> r is Socks5VersionIncorrect,
            self matches RequestFailure::UnknownCommand(b) ==> r == ProxyError::Socks5CmdParseError(b),
            self == RequestFailure::UnknownAddressType ==> r is Socks5UnknownAtyp,
    {
        match self {
            RequestFailure::Version => ProxyError::Socks5VersionIncorrect,
            RequestFailure::UnknownCommand(b) => ProxyError::Socks5CmdParseError(b),
            RequestFailure::UnknownAddressType => ProxyError::Socks5UnknownAtyp,
        }
    }
}

/// What a request came to so far.
#[derive(Debug)]
pub enum RequestStep {
    /// Read this many more bytes.
    NeedMore(usize),
    /// The request is refused.
    Failed(RequestFailure),
    /// The whole request: its command and its target.
    Ready(Cmd, ConnectRequest),
}

/// A request as plain values.
pub enum RequestOutcome {
    NeedMore(usize),
    Failed(RequestFailure),
    Ready(Cmd, ConnectView),
}

/// The view of a request step.
pub open spec fn request_view(r: RequestStep) -> RequestOutcome {
    match r {
        RequestStep::NeedMore(n) => RequestOutcome::NeedMore(n),
        RequestStep::Failed(f) => RequestOutcome::Failed(f),
        RequestStep::Ready(c, req) => RequestOutcome::Ready(c, req@),
    }
}

/// The number of address bytes of an address type byte that follow it, and
/// for a domain name the length byte; 0 for an unknown type.
pub open spec fn address_width(atyp: u8, b: Seq<u8>) -> int {
    if atyp == 1 {
        4
    } else if atyp == 4 {
        16
    } else {
        1 + b[4]
    }
}

/// What the bytes of a request (version, command, reserved byte, address type,
/// address, port) come to.
pub open spec fn request_outcome(b: Seq<u8>) -> RequestOutcome {
    if b.len() == 0 {
        RequestOutcome::NeedMore(1)
    } else if b[0] != SOCKS_VERSION {
        RequestOutcome::Failed(RequestFailure::Version)
    } else if b.len() == 1 {
        RequestOutcome::NeedMore(1)
    } else if cmd_of(b[1]) is None {
        RequestOutcome::Failed(RequestFailure::UnknownCommand(b[1]))
    } else if b.len() < 4 {
        RequestOutcome::NeedMore((4 - b.len()) as usize)
    } else if b[3] != 1 && b[3] != 3 && b[3] != 4 {
        RequestOutcome::Failed(RequestFailure::UnknownAddressType)
    } else if b[3] == 3 && b.len() == 4 {
        RequestOutcome::NeedMore(1)
    } else if b.len() < 4 + address_width(b[3], b) + 2 {
        RequestOutcome::NeedMore((4 + address_width(b[3], b) + 2 - b.len()) as usize)
    } else {
        let end = 4 + address_width(b[3], b);
        let atyp = if b[3] == 1 {
            SocksAddressType::Ipv4
        } else if b[3] == 4 {
            SocksAddressType::Ipv6
        } else {
            SocksAddressType::Domain
        };
        let address = if b[3] == 3 {
            b.subrange(5, end)
        } else {
            b.subrange(4, end)
        };
        RequestOutcome::Ready(
            cmd_of(b[1]).unwrap(),
            ConnectView {
                port: (b[end] * 256 + b[end + 1]) as u16,
                dst: socks_target(atyp, address),
            },
        )
    }
}

/// The byte of a command in a request.
pub open spec fn cmd_byte(c: Cmd) -> u8 {
    match c {
        Cmd::Connect => 1,
        Cmd::Bind => 2,
        Cmd::Udp => 3,
    }
}

/// A target address whose octets have the lengths of its kind.
pub open spec fn dst_well_sized(d: DstView) -> bool {
    match d {
        DstView::Ipv4(a) => a.len() == 4,
        DstView::Ipv6(a) => a.len() == 16,
        DstView::DomainName(s) => encode_utf8(s).len() < 256,
    }
}

/// The address part of a SOCKS5 request (RFC 1928): type 1 and four octets,
/// type 4 and sixteen octets, or type 3, the length and the bytes of the
/// name.
pub open spec fn socks_address_encoding(d: DstView) -> Seq<u8> {
    match d {
        DstView::Ipv4(a) => seq![1u8] + a,
        DstView::Ipv6(a) => seq![4u8] + a,
        DstView::DomainName(s) => seq![3u8, length_byte(encode_utf8(s).len())] + encode_utf8(s),
    }
}

/// A SOCKS5 request as a client sends it: version, command, a reserved zero
/// byte, the address, and the port, most significant byte first.
pub open spec fn socks_request_encoding(c: Cmd, r: ConnectView) -> Seq<u8> {
    seq![SOCKS_VERSION, cmd_byte(c), 0u8] + socks_address_encoding(r.dst) + port_bytes(r.port)
}

/// Every request a client sends is read back whole: its command, its target
/// and its port.
pub proof fn law_request_read_back(c: Cmd, r: ConnectView)
    requires
        dst_well_sized(r.dst),
    ensures
        request_outcome(socks_request_encoding(c, r)) == RequestOutcome::Ready(c, r),
{
    let b = socks_request_encoding(c, r);
    let a = socks_address_encoding(r.dst);
    assert(b[0] == SOCKS_VERSION);
    assert(b[1] == cmd_byte(c));
    assert(b[3] == a[0]);
    let p = r.port;
    match r.dst {
        DstView::Ipv4(o) => {
            assert(b.subrange(4, 8) =~= o);
            assert(o.take(4) =~= o);
            assert(b[8] == (p / 256) as u8 && b[9] == (p % 256) as u8);
        },
        DstView::Ipv6(o) => {
            assert(b.subrange(4, 20) =~= o);
            assert(b[20] == (p / 256) as u8 && b[21] == (p % 256) as u8);
        },
        DstView::DomainName(n) => {
            let e = encode_utf8(n);
            assert(b[4] == e.len());
            let end = 5 + e.len() as int;
            assert(b.subrange(5, end) =~= e);
            lemma_lossy_text_of_encoding(n);
            assert(b[end] == (p / 256) as u8 && b[end + 1] == (p % 256) as u8);
        },
    }
}

/// A request with address type 4 carries the sixteen bytes that follow the
/// type byte as its IPv6 address, and the two bytes after them as its port;
/// one with address type 1 carries the four bytes after it.
pub proof fn law_request_address_bytes(b: Seq<u8>)
    requires
        b.len() >= 4,
        b[0] == SOCKS_VERSION,
        cmd_of(b[1]) is Some,
    ensures
        b[3] == 4 && b.len() == 22 ==> request_outcome(b) == RequestOutcome::Ready(
            cmd_of(b[1]).unwrap(),
            ConnectView { port: (b[20] * 256 + b[21]) as u16, dst: DstView::Ipv6(b.subrange(4, 20)) },
        ),
        b[3] == 1 && b.len() == 10 ==> request_outcome(b) == RequestOutcome::Ready(
            cmd_of(b[1]).unwrap(),
            ConnectView { port: (b[8] * 256 + b[9]) as u16, dst: DstView::Ipv4(b.subrange(4, 8)) },
        ),
{
    if b[3] == 1 && b.len() == 10 {
        assert(b.subrange(4, 8).take(4) =~= b.subrange(4, 8));
    }
}

/// Looks at the bytes of a request read so far.
pub fn request_step(buf: &[u8]) -> (r: RequestStep)
    ensures
        request_view(r) == request_outcome(buf@),
{
    if buf.len() == 0 {
        return RequestStep::NeedMore(1);
    }
    if buf[0] != SOCKS_VERSION {
        return RequestStep::Failed(RequestFailure::Version);
    }
    if buf.len() == 1 {
        return RequestStep::NeedMore(1);
    }
    let cmd = match Cmd::try_from(buf[1]) {
        Some(c) => c,
        None => {
            return RequestStep::Failed(RequestFailure::UnknownCommand(buf[1]));
        },
    };
    if buf.len() < 4 {
        return RequestStep::NeedMore(4 - buf.len());
    }
    let t = buf[3];
    if t != 1 && t != 3 && t != 4 {
        return RequestStep::Failed(RequestFailure::UnknownAddressType);
    }
    if t == 3 && buf.len() == 4 {
        return RequestStep::NeedMore(1);
    }
    let width: usize = if t == 1 {
        4
    } else if t == 4 {
        16
    } else {
        1 + buf[4] as usize
    };
    if buf.len() < 4 + width + 2 {
        return RequestStep::NeedMore(4 + width + 2 - buf.len());
    }
    let end = 4 + width;
    let atyp = if t == 1 {
        SocksAddressType::Ipv4
    } else if t == 4 {
        SocksAddressType::Ipv6
    } else {
        SocksAddressType::Domain
    };
    let address = if t == 3 {
        vstd::slice::slice_subrange(buf, 5, end)
    } else {
        vstd::slice::slice_subrange(buf, 4, end)
    };
    let port: u16 = (buf[end] as u16) * 256 + (buf[end + 1] as u16);
    let request = ConnectRequest::from_socks_address(atyp, address, port);
    RequestStep::Ready(cmd, request)
}

/// The reply that a request whose target was reached is answered with:
/// success, and the target's address type, address and port.
pub fn connect_success_reply(request: &ConnectRequest) -> (r: Vec<u8>)
    ensures
        r@ == socks_response_encoding(
            SocksResponseView {
                ver: SOCKS_VERSION,
                rep: SocksResponseType::Success,
                rsv: 0,
                atyp: address_type_of(request@.dst),
                dst_addr: address_bytes(request@.dst),
                dst_port: request@.port,
            },
        ),
{
    let mut builder = SocksResponse::builder();
    builder.atyp(request.dst_as_atp()).dst_addr(request.addr()).dst_port(request.port());
    builder.rep(SocksResponseType::Success);
    let response = builder.build();
    response.to_bytes()
}

// ---------------------------------------------------------------------------
// The inbound.
/// A SOCKS5 inbound with its configuration.
pub struct Socks5InBound {
    config: Arc<SocksInBoundConfig>,
    dns_config: Arc<DnsConfig>,
}

impl Socks5InBound {
    pub fn new(config: Arc<SocksInBoundConfig>, dns_config: Arc<DnsConfig>) -> (r: Self)
        ensures
            r.config_spec() == *config,
            r.dns_spec() == *dns_config,
    {
        Socks5InBound { config, dns_config }
    }

    pub closed spec fn config_spec(&self) -> SocksInBoundConfig {
        *self.config
    }

    pub closed spec fn dns_spec(&self) -> DnsConfig {
        *self.dns_config
    }

    pub fn config(&self) -> (r: &SocksInBoundConfig)
        ensures
            *r == self.config_spec(),
    {
        &self.config
    }

    pub fn dns_config(&self) -> (r: &DnsConfig)
        ensures
            *r == self.dns_spec(),
    {
        &self.dns_config
    }

    /// Whether a client must give a user and password: a user or a password
    /// is configured.
    pub open spec fn password_required(&self) -> bool {
        self.config_spec().uid_spec() is Some || self.config_spec().pwd_spec() is Some
    }

    /// Looks at the bytes of a method negotiation read so far, against this
    /// inbound's configuration.
    pub fn greeting_step(&self, buf: &[u8]) -> (r: Greeting)
        ensures
            r == greeting_outcome(buf@, self.password_required()),
    {
        let required = self.config.uid().is_some() || self.config.pwd().is_some();
        greeting_step(buf, required)
    }

    /// Looks at the bytes of a user and password exchange read so far, against
    /// the configured user and password (empty when not configured).
    pub fn userpwd_step(&self, buf: &[u8]) -> (r: UserPwdStep)
        ensures
            r == userpwd_outcome(
                buf@,
                match self.config_spec().uid_spec() {
                    Some(u) => u,
                    None => Seq::<char>::empty(),
                },
                match self.config_spec().pwd_spec() {
                    Some(p) => p,
                    None => Seq::<char>::empty(),
                },
            ),
    {
        let uid = match self.config.uid() {
            Some(u) => u,
            None => "",
        };
        let pwd = match self.config.pwd() {
            Some(p) => p,
            None => "",
        };
        proof {
            reveal_strlit("");
            assert(""@ =~= Seq::<char>::empty());
        }
        userpwd_step(buf, uid, pwd)
    }
}

} // verus!
