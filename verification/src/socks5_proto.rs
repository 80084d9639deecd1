//! The messages of the SOCKS5 protocol (RFC 1928) that the proxy answers.
use vstd::prelude::*;

use crate::text::append_bytes;

verus! {

/// Protocol version byte of SOCKS5.
pub const SOCKS_VERSION: u8 = 0x05;

/// A method of authentication of SOCKS5.
#[derive(Debug, PartialEq, Eq, Structural, Clone, Copy, PartialOrd, Ord)]
pub enum AuthMethod {
    NoAuth,
    Gssapi,
    UserPwd,
    Reject,
}

/// The methods that this server accepts.
pub open spec fn server_supports(m: AuthMethod) -> bool {
    m == AuthMethod::NoAuth || m == AuthMethod::UserPwd
}

/// The methods that this server accepts, in the order of the wire table.
pub fn server_supported_auths() -> (r: [AuthMethod; 2])
    ensures
        r@ == seq![AuthMethod::NoAuth, AuthMethod::UserPwd],
{
    let r = [AuthMethod::NoAuth, AuthMethod::UserPwd];
    assert(r@ =~= seq![AuthMethod::NoAuth, AuthMethod::UserPwd]);
    r
}

/// The method that a byte names: 0, 1 and 2 name a method, every other byte
/// rejects.
pub open spec fn auth_method_of(value: u8) -> AuthMethod {
    if value == 0 {
        AuthMethod::NoAuth
    } else if value == 1 {
        AuthMethod::Gssapi
    } else if value == 2 {
        AuthMethod::UserPwd
    } else {
        AuthMethod::Reject
    }
}

/// The byte of a method.
pub open spec fn auth_method_byte(m: AuthMethod) -> u8 {
    match m {
        AuthMethod::NoAuth => 0x00,
        AuthMethod::Gssapi => 0x01,
        AuthMethod::UserPwd => 0x02,
        AuthMethod::Reject => 0xFF,
    }
}

/// The rank of a method in the declared order, which is the order of `Ord`.
pub open spec fn auth_method_rank(m: AuthMethod) -> nat {
    match m {
        AuthMethod::NoAuth => 0,
        AuthMethod::Gssapi => 1,
        AuthMethod::UserPwd => 2,
        AuthMethod::Reject => 3,
    }
}

impl From<u8> for AuthMethod {
    fn from(value: u8) -> (r: Self) {
        if value == 0x00 {
            AuthMethod::NoAuth
        } else if value == 0x01 {
            AuthMethod::Gssapi
        } else if value == 0x02 {
            AuthMethod::UserPwd
        } else {
            AuthMethod::Reject
        }
    }
}

impl vstd::std_specs::convert::FromSpecImpl<u8> for AuthMethod {
    open spec fn obeys_from_spec() -> bool {
        true
    }

    open spec fn from_spec(value: u8) -> Self {
        auth_method_of(value)
    }
}

impl From<AuthMethod> for u8 {
    fn from(value: AuthMethod) -> (r: u8) {
        match value {
            AuthMethod::NoAuth => 0x00,
            AuthMethod::Gssapi => 0x01,
            AuthMethod::UserPwd => 0x02,
            AuthMethod::Reject => 0xFF,
        }
    }
}

impl vstd::std_specs::convert::FromSpecImpl<AuthMethod> for u8 {
    open spec fn obeys_from_spec() -> bool {
        true
    }

    open spec fn from_spec(value: AuthMethod) -> u8 {
        auth_method_byte(value)
    }
}

impl AuthMethod {
    /// The method that a byte names.
    pub fn from_byte(value: &u8) -> (r: AuthMethod)
        ensures
            r == auth_method_of(*value),
    {
        AuthMethod::from(*value)
    }

    /// The byte of this method.
    pub fn to_byte(self) -> (r: u8)
        ensures
            r == auth_method_byte(self),
    {
        u8::from(self)
    }
}

/// Reading the byte of a method gives the method back.
pub proof fn law_auth_method_byte_roundtrip(m: AuthMethod)
    ensures
        auth_method_of(auth_method_byte(m)) == m,
{
}

/// A command of a SOCKS5 request.
#[derive(Debug, PartialEq, Eq, Structural, Clone, Copy)]
pub enum Cmd {
    Connect,
    Bind,
    Udp,
}

/// The command that a byte names, if any.
pub open spec fn cmd_of(value: u8) -> Option<Cmd> {
    if value == 1 {
        Some(Cmd::Connect)
    } else if value == 2 {
        Some(Cmd::Bind)
    } else if value == 3 {
        Some(Cmd::Udp)
    } else {
        None
    }
}

impl Cmd {
    /// The command that a byte names; `None` for an unknown command.
    pub fn try_from(value: u8) -> (r: Option<Cmd>)
        ensures
            r == cmd_of(value),
    {
        if value == 0x01 {
            Some(Cmd::Connect)
        } else if value == 0x02 {
            Some(Cmd::Bind)
        } else if value == 0x03 {
            Some(Cmd::Udp)
        } else {
            None
        }
    }
}

/// The reply field of a SOCKS5 reply.
#[derive(Debug, Clone, Copy, PartialEq, Eq, Structural)]
pub enum SocksResponseType {
    Success,
    ServerError,
    RuleProhibits,
    NetWorkInAccessible,
    HostInAccessible,
    ConnectReject,
    TTLTimeout,
    NoSupportCommand,
    NoSupportAddressType,
    AddressIncorrect,
}

/// The byte of a reply field.
pub open spec fn response_type_byte(t: SocksResponseType) -> u8 {
    match t {
        SocksResponseType::Success => 0x00,
        SocksResponseType::ServerError => 0x01,
        SocksResponseType::RuleProhibits => 0x02,
        SocksResponseType::NetWorkInAccessible => 0x03,
        SocksResponseType::HostInAccessible => 0x04,
        SocksResponseType::ConnectReject => 0x05,
        SocksResponseType::TTLTimeout => 0x06,
        SocksResponseType::NoSupportCommand => 0x07,
        SocksResponseType::NoSupportAddressType => 0x08,
        SocksResponseType::AddressIncorrect => 0x09,
    }
}

impl From<SocksResponseType> for u8 {
    fn from(value: SocksResponseType) -> (r: u8) {
        match value {
            SocksResponseType::Success => 0x00,
            SocksResponseType::ServerError => 0x01,
            SocksResponseType::RuleProhibits => 0x02,
            SocksResponseType::NetWorkInAccessible => 0x03,
            SocksResponseType::HostInAccessible => 0x04,
            SocksResponseType::ConnectReject => 0x05,
            SocksResponseType::TTLTimeout => 0x06,
            SocksResponseType::NoSupportCommand => 0x07,
            SocksResponseType::NoSupportAddressType => 0x08,
            SocksResponseType::AddressIncorrect => 0x09,
        }
    }
}

impl vstd::std_specs::convert::FromSpecImpl<SocksResponseType> for u8 {
    open spec fn obeys_from_spec() -> bool {
        true
    }

    open spec fn from_spec(value: SocksResponseType) -> u8 {
        response_type_byte(value)
    }
}

/// The address type of a SOCKS5 request or reply.
#[derive(Debug, Clone, Copy, PartialEq, Eq, Structural)]
pub enum SocksAddressType {
    Ipv4,
    Domain,
    Ipv6,
}

/// The byte of an address type.
pub open spec fn address_type_byte(t: SocksAddressType) -> u8 {
    match t {
        SocksAddressType::Ipv4 => 0x01,
        SocksAddressType::Domain => 0x03,
        SocksAddressType::Ipv6 => 0x04,
    }
}

impl From<SocksAddressType> for u8 {
    fn from(value: SocksAddressType) -> (r: u8) {
        match value {
            SocksAddressType::Ipv4 => 0x01,
            SocksAddressType::Domain => 0x03,
            SocksAddressType::Ipv6 => 0x04,
        }
    }
}

impl vstd::std_specs::convert::FromSpecImpl<SocksAddressType> for u8 {
    open spec fn obeys_from_spec() -> bool {
        true
    }

    open spec fn from_spec(value: SocksAddressType) -> u8 {
        address_type_byte(value)
    }
}

/// A SOCKS5 reply.
#[derive(Debug)]
pub struct SocksResponse {
    ver: u8,
    rep: SocksResponseType,
    rsv: u8,
    atyp: SocksAddressType,
    dst_addr: Vec<u8>,
    dst_port: u16,
}

/// A SOCKS5 reply as plain values.
pub struct SocksResponseView {
    pub ver: u8,
    pub rep: SocksResponseType,
    pub rsv: u8,
    pub atyp: SocksAddressType,
    pub dst_addr: Seq<u8>,
    pub dst_port: u16,
}

impl View for SocksResponse {
    type V = SocksResponseView;

    closed spec fn view(&self) -> SocksResponseView {
        SocksResponseView {
            ver: self.ver,
            rep: self.rep,
            rsv: self.rsv,
            atyp: self.atyp,
            dst_addr: self.dst_addr@,
            dst_port: self.dst_port,
        }
    }
}

/// The fields of a reply that is being built.
pub struct SocksResponseBuilder {
    rep: SocksResponseType,
    atyp: SocksAddressType,
    dst_addr: Vec<u8>,
    dst_port: u16,
}

/// A reply that is being built, as plain values.
pub struct BuilderView {
    pub rep: SocksResponseType,
    pub atyp: SocksAddressType,
    pub dst_addr: Seq<u8>,
    pub dst_port: u16,
}

impl View for SocksResponseBuilder {
    type V = BuilderView;

    closed spec fn view(&self) -> BuilderView {
        BuilderView {
            rep: self.rep,
            atyp: self.atyp,
            dst_addr: self.dst_addr@,
            dst_port: self.dst_port,
        }
    }
}

impl SocksResponseBuilder {
    pub fn rep(&mut self, rep: SocksResponseType) -> (r: &mut SocksResponseBuilder)
        ensures
            r@ == (BuilderView { rep: rep, ..old(self)@ }),
            final(self)@ == final(r)@,
    {
        self.rep = rep;
        self
    }

    pub fn atyp(&mut self, atyp: SocksAddressType) -> (r: &mut SocksResponseBuilder)
        ensures
            r@ == (BuilderView { atyp: atyp, ..old(self)@ }),
            final(self)@ == final(r)@,
    {
        self.atyp = atyp;
        self
    }

    pub fn dst_addr(&mut self, addr: Vec<u8>) -> (r: &mut SocksResponseBuilder)
        ensures
            r@ == (BuilderView { dst_addr: addr@, ..old(self)@ }),
            final(self)@ == final(r)@,
    {
        self.dst_addr = addr;
        self
    }

    pub fn dst_port(&mut self, port: u16) -> (r: &mut SocksResponseBuilder)
        ensures
            r@ == (BuilderView { dst_port: port, ..old(self)@ }),
            final(self)@ == final(r)@,
    {
        self.dst_port = port;
        self
    }

    /// The reply with version 5, reserved byte 0 and the fields set so far.
    pub fn build(self) -> (r: SocksResponse)
        ensures
            r@ == (SocksResponseView {
                ver: SOCKS_VERSION,
                rep: self@.rep,
                rsv: 0,
                atyp: self@.atyp,
                dst_addr: self@.dst_addr,
                dst_port: self@.dst_port,
            }),
    {
        SocksResponse {
            ver: SOCKS_VERSION,
            rep: self.rep,
            rsv: 0x00,
            atyp: self.atyp,
            dst_addr: self.dst_addr,
            dst_port: self.dst_port,
        }
    }
}

/// The wire form of a reply: version, reply, reserved byte, address type, the
/// address (a domain name preceded by its length modulo 256), and the port
/// most significant byte first.
pub open spec fn socks_response_encoding(r: SocksResponseView) -> Seq<u8> {
    seq![r.ver, response_type_byte(r.rep), r.rsv, address_type_byte(r.atyp)] + (
    if r.atyp == SocksAddressType::Domain {
        seq![(r.dst_addr.len() % 256) as u8]
    } else {
        Seq::<u8>::empty()
    }) + r.dst_addr + seq![(r.dst_port / 256) as u8, (r.dst_port % 256) as u8]
}

impl SocksResponse {
    /// A builder with reply "server error", address type IPv4, no address
    /// bytes and port 0.
    pub fn builder() -> (r: SocksResponseBuilder)
        ensures
            r@ == (BuilderView {
                rep: SocksResponseType::ServerError,
                atyp: SocksAddressType::Ipv4,
                dst_addr: Seq::<u8>::empty(),
                dst_port: 0,
            }),
    {
        SocksResponseBuilder {
            rep: SocksResponseType::ServerError,
            atyp: SocksAddressType::Ipv4,
            dst_addr: Vec::new(),
            dst_port: 0x00,
        }
    }

    pub fn rep(&self) -> (r: SocksResponseType)
        ensures
            r == self@.rep,
    {
        self.rep
    }

    /// The wire form of this reply.
    pub fn to_bytes(&self) -> (res: Vec<u8>)
        ensures
            res@ == socks_response_encoding(self@),
    {
        let mut res: Vec<u8> = Vec::new();
        res.push(self.ver);
        res.push(u8::from(self.rep));
        res.push(self.rsv);
        res.push(u8::from(self.atyp));
        match self.atyp {
            SocksAddressType::Ipv4 | SocksAddressType::Ipv6 => {
                append_bytes(&mut res, self.dst_addr.as_slice());
            },
            SocksAddressType::Domain => {
                res.push((self.dst_addr.len() % 256) as u8);
                append_bytes(&mut res, self.dst_addr.as_slice());
            },
        }
        res.push((self.dst_port / 256) as u8);
        res.push((self.dst_port % 256) as u8);
        assert(res@ =~= socks_response_encoding(self@));
        res
    }
}

} // verus!
